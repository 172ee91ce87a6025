use acp_agent::limits::{TaskCapKind, TaskGate, TaskGuard, TASKS_PER_PEER_MAX, TASKS_TOTAL_MAX};

#[test]
fn per_peer_cap_enforced_and_released() {
    let mut gate = TaskGate::new();
    let guards: Vec<TaskGuard> = (0..TASKS_PER_PEER_MAX)
        .map(|_| TaskGuard::acquire(&mut gate, "p1").unwrap())
        .collect();
    assert_eq!(gate.try_acquire("p1").unwrap_err(), TaskCapKind::PerPeer);
    for guard in guards {
        guard.release(&mut gate);
    }
    TaskGuard::acquire(&mut gate, "p1").unwrap();
}

#[test]
fn release_frees_slot() {
    let mut gate = TaskGate::new();
    let guard = TaskGuard::acquire(&mut gate, "p1").unwrap();
    guard.release(&mut gate);
    TaskGuard::acquire(&mut gate, "p1").unwrap();
}

#[test]
fn total_cap_enforced() {
    let mut gate = TaskGate::new();
    let guards: Vec<TaskGuard> = (0..TASKS_TOTAL_MAX)
        .map(|i| TaskGuard::acquire(&mut gate, &format!("p{i}")).unwrap())
        .collect();
    assert_eq!(gate.try_acquire("overflow").unwrap_err(), TaskCapKind::Total);
    for guard in guards {
        guard.release(&mut gate);
    }
    TaskGuard::acquire(&mut gate, "overflow").unwrap();
}

#[test]
fn release_restores_counts_exactly() {
    let mut gate = TaskGate::new();
    let a = TaskGuard::acquire(&mut gate, "p1").unwrap();
    let b = TaskGuard::acquire(&mut gate, "p2").unwrap();
    assert_eq!(gate.held_by("p1"), 1);
    assert_eq!(gate.total_held(), 2);
    a.release(&mut gate);
    assert_eq!(gate.held_by("p1"), 0);
    assert_eq!(gate.held_by("p2"), 1);
    assert_eq!(gate.total_held(), 1);
    b.release(&mut gate);
    assert_eq!(gate.total_held(), 0);
}

#[test]
fn cap_kinds_are_distinct() {
    assert_ne!(TaskCapKind::PerPeer, TaskCapKind::Total);
}
