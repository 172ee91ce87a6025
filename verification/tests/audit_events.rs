use acp_agent::audit::{AuditEvent, AuditSink, CaptureAudit};

#[test]
fn capture_keeps_events_in_order() {
    let mut audit = CaptureAudit::new();
    audit.record(AuditEvent::ConnDenied { peer: "p1".into(), code: "peer-not-allowed".into() });
    audit.record(AuditEvent::GateDenied { peer: "p2".into(), code: "cap".into(), limit: "per-peer" });
    audit.record(AuditEvent::ClientGone { peer: "p3".into(), conn: "c".into() });
    let events = audit.snapshot();
    assert_eq!(events.len(), 3);
    assert_eq!(events[0].kind(), "conn-denied");
    assert_eq!(events[1].code(), "cap");
    assert_eq!(events[2].code(), "-");
    assert_eq!(events[2].peer(), "p3");
    assert!(audit.contains(|e| matches!(e, AuditEvent::GateDenied { limit, .. } if *limit == "per-peer")));
    assert!(!audit.contains(|e| matches!(e, AuditEvent::SpawnFailed { .. })));
}

#[test]
fn every_kind_has_its_label() {
    let peer = || "p".to_owned();
    let conn = || "c".to_owned();
    let cases = [
        (AuditEvent::ConnDenied { peer: peer(), code: "x".into() }, "conn-denied"),
        (AuditEvent::GateDenied { peer: peer(), code: "x".into(), limit: "total" }, "gate-denied"),
        (AuditEvent::ConnEstablished { peer: peer(), conn: conn() }, "conn-established"),
        (AuditEvent::SpawnFailed { peer: peer(), conn: conn(), detail: "d".into() }, "spawn-failed"),
        (AuditEvent::ClientGone { peer: peer(), conn: conn() }, "client-gone"),
        (AuditEvent::SubprocessExit { peer: peer(), conn: conn(), detail: "d".into() }, "subprocess-exit"),
    ];
    for (event, kind) in cases {
        assert_eq!(event.kind(), kind);
        assert_eq!(event.peer(), "p");
    }
}
