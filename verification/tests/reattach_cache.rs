use acp_agent::permission::RpcMessage;
use acp_agent::reattach::{
    is_method, is_response, is_session_update, replay_announcement, update_session_key, UpdateCache,
    SESSION_UPDATE_CACHE_LIMIT,
};

fn line(has_method: bool, method: Option<&str>, id: Option<&str>, session_id: Option<&str>) -> RpcMessage {
    RpcMessage {
        has_method,
        method: method.map(str::to_owned),
        id: id.map(str::to_owned),
        session_id: session_id.map(str::to_owned),
        update_kind: None,
        tool_kind: None,
        options: None,
    }
}

#[test]
fn ring_wraps_dropping_oldest() {
    let mut cache = UpdateCache::with_limit(12);
    assert_eq!(cache.push("s1", b"0123456789".to_vec()), 0);
    assert_eq!(cache.push("s1", b"abc".to_vec()), 1);
    assert_eq!(cache.push("s1", b"def".to_vec()), 0);
    let drained = cache.drain();
    assert_eq!(drained, vec![b"abc".to_vec(), b"def".to_vec()]);
    assert!(cache.is_empty());
}

#[test]
fn eight_mib_limit_wraps_large_lines() {
    let mut cache = UpdateCache::new();
    let big = vec![b'x'; SESSION_UPDATE_CACHE_LIMIT / 2];
    assert_eq!(cache.push("s", big.clone()), 0);
    assert_eq!(cache.push("s", big.clone()), 0);
    assert_eq!(cache.push("s", big), 1);
    let drained = cache.drain();
    assert_eq!(drained.len(), 2);
}

#[test]
fn drain_orders_sessions_by_name_then_insertion() {
    let mut cache = UpdateCache::with_limit(1024);
    cache.push("s2", b"b1".to_vec());
    cache.push("s1", b"a1".to_vec());
    cache.push("s2", b"b2".to_vec());
    let drained = cache.drain();
    assert_eq!(drained, vec![b"a1".to_vec(), b"b1".to_vec(), b"b2".to_vec()]);
}

#[test]
fn wire_predicates() {
    assert!(is_session_update(&line(true, Some("session/update"), None, Some("s"))));
    assert_eq!(update_session_key(&line(false, None, None, Some("s"))), Some("s"));
    assert!(is_method(&line(true, Some("initialize"), Some("1"), None), "initialize"));
    assert!(is_response(&line(false, None, Some("3"), None)));
    assert!(!is_response(&line(true, Some("ping"), Some("3"), None)));
    assert!(!is_response(&line(false, None, Some("null"), None)));
    let announce = replay_announcement(4);
    let root: serde_json::Value = serde_json::from_str(&announce).expect("json");
    assert_eq!(root["params"]["replayed"], 4);
}

#[test]
fn replay_announcement_text_is_exact() {
    assert_eq!(
        replay_announcement(12),
        "{\"jsonrpc\":\"2.0\",\"method\":\"dsh/bridge/reattach\",\"params\":{\"replayed\":12}}"
    );
    assert_eq!(
        replay_announcement(0),
        "{\"jsonrpc\":\"2.0\",\"method\":\"dsh/bridge/reattach\",\"params\":{\"replayed\":0}}"
    );
}

#[test]
fn a_line_larger_than_the_cap_is_dropped_itself() {
    let mut cache = UpdateCache::with_limit(4);
    assert_eq!(cache.push("s", b"12345".to_vec()), 1);
    assert!(cache.drain().is_empty());
}

#[test]
fn newest_fitting_line_survives() {
    let mut cache = UpdateCache::with_limit(5);
    cache.push("s", b"aaa".to_vec());
    cache.push("s", b"bbb".to_vec());
    assert_eq!(cache.drain(), vec![b"bbb".to_vec()]);
}

#[test]
fn non_string_method_is_not_a_response() {
    assert!(!is_response(&line(true, None, Some("3"), None)));
    assert!(!is_session_update(&line(true, None, None, None)));
}
