use acp_agent::gate::{ConnGate, ConnGuard, ConnLimit, GateLimits, MAX_CONNS_PER_PEER};

#[test]
fn per_peer_and_total_caps_hold() {
    let limits = GateLimits::from_config(2);
    assert_eq!(limits.per_peer, MAX_CONNS_PER_PEER);
    let mut gate = ConnGate::new();
    let a = ConnGuard::acquire(&mut gate, "p1", limits).expect("first");
    let (cap, kind) = ConnGuard::acquire(&mut gate, "p1", limits).err().expect("per-peer cap");
    assert_eq!(kind, ConnLimit::PerPeer);
    assert_eq!(kind.label(), "per-peer");
    assert_eq!(cap.cap, MAX_CONNS_PER_PEER);
    let b = ConnGuard::acquire(&mut gate, "p2", limits).expect("second peer");
    let (_, kind) = ConnGuard::acquire(&mut gate, "p3", limits).err().expect("total cap");
    assert_eq!(kind.label(), "total");
    a.release(&mut gate);
    b.release(&mut gate);
    assert_eq!(gate.held_by("p1"), 0);
    ConnGuard::acquire(&mut gate, "p3", limits).expect("freed");
}

#[test]
fn zero_total_is_raised_to_one() {
    assert_eq!(GateLimits::from_config(0).total, 1);
    assert_eq!(GateLimits::from_config(8).total, 8);
}
