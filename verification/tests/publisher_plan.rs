use acp_agent::agents::{AgentStore, Visibility};
use acp_agent::publish::{heartbeat_defs, publisher_addrs, Transport};

fn strings(v: &[&str]) -> Vec<String> {
    v.iter().map(|s| s.to_string()).collect()
}

#[test]
fn publisher_off_when_disabled_or_no_bootstrap() {
    assert_eq!(publisher_addrs(true, &strings(&["127.0.0.1/u9000"])), None);
    assert_eq!(publisher_addrs(false, &Vec::new()), None);
    assert_eq!(publisher_addrs(true, &Vec::new()), None);
}

#[test]
fn publisher_off_when_one_bootstrap_is_bad() {
    assert_eq!(publisher_addrs(false, &strings(&["127.0.0.1/u9000", "bad"])), None);
    assert_eq!(publisher_addrs(false, &strings(&["10.0.0.1/x1"])), None);
}

#[test]
fn publisher_addrs_keep_order_and_parts() {
    let r = publisher_addrs(false, &strings(&["127.0.0.1/u9000", "10.0.0.1/t9001"])).unwrap();
    assert_eq!(
        r,
        vec![
            ("127.0.0.1".to_string(), Transport::Quic, 9000),
            ("10.0.0.1".to_string(), Transport::Tcp, 9001),
        ]
    );
}

#[test]
fn heartbeat_pushes_enabled_public_cards_only() {
    let mut store = AgentStore::new();
    store.create(Some("pub1".into()), "n".into(), "d".into(), vec![], Visibility::Public, 1).unwrap();
    store.create(Some("priv".into()), "n".into(), "d".into(), vec![], Visibility::Private, 1).unwrap();
    store.create(Some("loc".into()), "n".into(), "d".into(), vec![], Visibility::Local, 1).unwrap();
    store.create(Some("pub2".into()), "n".into(), "d".into(), vec![], Visibility::Public, 1).unwrap();
    store.create(Some("off".into()), "n".into(), "d".into(), vec![], Visibility::Public, 1).unwrap();
    store.set_enabled("off", false).unwrap();
    let ids: Vec<String> = heartbeat_defs(&store).into_iter().map(|d| d.agent_id).collect();
    assert_eq!(ids, vec!["pub1".to_string(), "pub2".to_string()]);
}

#[test]
fn heartbeat_of_empty_book_is_empty() {
    let store = AgentStore::new();
    assert!(heartbeat_defs(&store).is_empty());
}
