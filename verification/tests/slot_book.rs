use acp_agent::slots::SlotBook;

#[test]
fn validate_rejects_cross_device_ticket() {
    let mut book = SlotBook::new();
    let ticket: u128 = 0x1234_5678_9abc_def0_1111_2222_3333_4444;
    book.insert(ticket, "peer-a");
    assert!(book.validate(ticket, "peer-a"));
    assert!(!book.validate(ticket, "peer-b"));
}

#[test]
fn supersede_shuts_down_same_peer_slots() {
    let mut book = SlotBook::new();
    book.insert(1, "peer-a");
    book.insert(2, "peer-b");
    assert_eq!(book.supersede("peer-a"), vec![1]);
    assert!(book.validate(2, "peer-b"));
    assert!(!book.validate(1, "peer-a"));
    assert!(!book.validate(3, "peer-a"));
}

#[test]
fn reinsert_rebinds_and_remove_and_drain_empty() {
    let mut book = SlotBook::new();
    book.insert(1, "peer-a");
    book.insert(1, "peer-c");
    assert!(book.validate(1, "peer-c"));
    assert!(!book.validate(1, "peer-a"));
    book.insert(2, "peer-a");
    book.insert(3, "peer-a");
    book.remove(2);
    assert!(!book.validate(2, "peer-a"));
    assert_eq!(book.drain(), vec![1, 3]);
    assert!(!book.validate(3, "peer-a"));
}
