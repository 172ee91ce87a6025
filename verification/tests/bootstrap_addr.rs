use acp_agent::publish::{bootstrap_parts, Transport};

#[test]
fn parse_addr_quic_tcp_and_bad() {
    assert!(bootstrap_parts("127.0.0.1/u9000").is_some());
    assert!(bootstrap_parts("10.0.0.1/t9000").is_some());
    assert!(bootstrap_parts("10.0.0.1/x9000").is_none());
    assert!(bootstrap_parts("no-addr").is_none());
    assert!(bootstrap_parts("10.0.0.1/u").is_none());
}

#[test]
fn bootstrap_parts_exact_values() {
    assert_eq!(bootstrap_parts("127.0.0.1/u9000"), Some(("127.0.0.1".to_owned(), Transport::Quic, 9000)));
    assert_eq!(bootstrap_parts("::1/t+65535"), Some(("::1".to_owned(), Transport::Tcp, 65535)));
    assert_eq!(bootstrap_parts("10.0.0.1/t65536"), None);
    assert_eq!(bootstrap_parts("10.0.0.1/u-1"), None);
    assert_eq!(bootstrap_parts("a/b/u1"), None);
    assert_eq!(bootstrap_parts("a/u1/x"), None);
    assert_eq!(bootstrap_parts("/u7"), Some((String::new(), Transport::Quic, 7)));
}
