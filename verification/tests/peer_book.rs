use acp_agent::peers::{Attribution, PeerBook};

#[test]
fn insert_is_idempotent_and_remove_works() {
    let mut book = PeerBook::new();
    let peer = "12D3KooWpeer";
    book.insert(peer);
    book.insert(peer);
    assert_eq!(book.connected().len(), 1);
    book.remove(peer);
    assert!(book.connected().is_empty());
}

#[test]
fn empty_online_set_times_out() {
    let book = PeerBook::new();
    assert_eq!(book.attribute(), Attribution::Nobody);
}

#[test]
fn attribution_needs_exactly_one_peer() {
    let mut book = PeerBook::new();
    book.insert("a");
    assert_eq!(book.attribute(), Attribution::Peer("a".into()));
    book.insert("b");
    assert_eq!(book.attribute(), Attribution::Ambiguous);
    book.remove("a");
    assert_eq!(book.attribute(), Attribution::Peer("b".into()));
    assert_eq!(book.connected(), vec!["b".to_owned()]);
}
