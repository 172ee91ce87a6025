use acp_agent::audit::AuditEvent;
use acp_agent::agents::{AgentStore, Visibility, TTL_DEFAULT_SECS};
use acp_agent::card::{
    complete_receipt, dispatch, handle_invite_request, heartbeat_interval, receipt_target, visible_definitions,
    CardAction, CardRequest, InviteFrameFacts, InviteReply,
};
use acp_agent::grants::GrantStore;
use acp_agent::invites::{InviteStatus, InviteStore};

#[test]
fn heartbeat_is_half_card_ttl() {
    assert_eq!(heartbeat_interval(), TTL_DEFAULT_SECS / 2);
    assert_eq!(heartbeat_interval(), 150);
}

fn book() -> AgentStore {
    let mut agents = AgentStore::new();
    agents.create(Some("pub-a".into()), "a".into(), "d".into(), vec![], Visibility::Public, 1).unwrap();
    agents.create(Some("priv-b".into()), "b".into(), "d".into(), vec![], Visibility::Private, 1).unwrap();
    agents.create(Some("loc-c".into()), "c".into(), "d".into(), vec![], Visibility::Local, 1).unwrap();
    agents
}

fn ids(defs: &[acp_agent::agents::AgentDef]) -> Vec<String> {
    defs.iter().map(|d| d.agent_id.clone()).collect()
}

#[test]
fn visibility_is_fail_closed() {
    let agents = book();
    let mut grants = GrantStore::new();
    assert_eq!(ids(&visible_definitions(&agents, &grants, "owner", true)), vec!["pub-a", "priv-b", "loc-c"]);
    assert_eq!(ids(&visible_definitions(&agents, &grants, "remote", false)), vec!["pub-a"]);
    grants.grant("priv-b", "remote", 5).unwrap();
    grants.grant("loc-c", "remote", 5).unwrap();
    assert_eq!(ids(&visible_definitions(&agents, &grants, "remote", false)), vec!["pub-a", "priv-b"]);
    assert_eq!(ids(&visible_definitions(&agents, &grants, "other", false)), vec!["pub-a"]);
}

#[test]
fn get_of_an_invisible_agent_is_not_found() {
    let agents = book();
    let grants = GrantStore::new();
    let action = dispatch(&agents, &grants, "remote", false, &CardRequest::Get { agent_id: "priv-b".into() });
    assert_eq!(
        action,
        CardAction::Refuse { code: "not-found".into(), message: "agent priv-b 不可见或不存在".into() }
    );
    match dispatch(&agents, &grants, "remote", false, &CardRequest::Get { agent_id: "pub-a".into() }) {
        CardAction::Cards(defs) => assert_eq!(ids(&defs), vec!["pub-a"]),
        other => panic!("unexpected {other:?}"),
    }
}

#[test]
fn server_frames_from_a_client_are_violations() {
    let agents = book();
    let grants = GrantStore::new();
    assert_eq!(dispatch(&agents, &grants, "p", false, &CardRequest::ServerOnly), CardAction::Violation);
    assert_eq!(dispatch(&agents, &grants, "p", false, &CardRequest::Error), CardAction::Silent);
    match dispatch(&agents, &grants, "p", false, &CardRequest::Subscribe) {
        CardAction::Subscribe(defs) => assert_eq!(ids(&defs), vec!["pub-a"]),
        other => panic!("unexpected {other:?}"),
    }
}

fn facts(nonce: &str) -> InviteFrameFacts {
    InviteFrameFacts {
        nonce: nonce.into(),
        agent_id: "priv-b".into(),
        invitee_peer: "guest".into(),
        expiry: 9_999,
        issued_at: 10,
        verify_error: None,
    }
}

fn refused(error: &str, message: &str) -> InviteReply {
    InviteReply::Refused { error: error.into(), message: message.into() }
}

#[test]
fn invite_request_checks_in_order() {
    let mut invites = InviteStore::new();
    let (reply, event) = handle_invite_request(&mut invites, "host", "peer-x", false, Ok(facts("n1")));
    assert_eq!(reply, refused("denied", "only owner can create invites"));
    assert_eq!(
        event,
        Some(AuditEvent::A2aDenied { peer: "peer-x".into(), detail: "non-owner invite request rejected".into() })
    );
    assert!(invites.list().is_empty());
    assert_eq!(
        handle_invite_request(&mut invites, "host", "host", true, Err("eof".into())).0,
        refused("bad-invite", "invite parse error: eof")
    );
    let mut bad = facts("n1");
    bad.verify_error = Some("expired".into());
    assert_eq!(
        handle_invite_request(&mut invites, "host", "host", true, Ok(bad)).0,
        refused("bad-invite", "invite verify error: expired")
    );
    assert!(invites.list().is_empty());
    assert_eq!(handle_invite_request(&mut invites, "host", "host", true, Ok(facts("n1"))).0, InviteReply::Issued);
    let list = invites.list();
    assert_eq!(list.len(), 1);
    assert_eq!(list[0].host_peer, "host");
    assert_eq!(list[0].status, InviteStatus::Pending);
    assert_eq!(
        handle_invite_request(&mut invites, "host", "host", true, Ok(facts("n1"))).0,
        refused("nonce-used", "nonce already used")
    );
}

#[test]
fn receipt_accepts_and_grants_once() {
    let mut invites = InviteStore::new();
    let mut grants = GrantStore::new();
    handle_invite_request(&mut invites, "host", "host", true, Ok(facts("n1"))).0;
    let missing = receipt_target(&invites, Ok("zz".into())).unwrap_err();
    assert!(!missing.ok);
    assert_eq!(missing.message.as_deref(), Some("nonce not found"));
    let parse = receipt_target(&invites, Err("bad".into())).unwrap_err();
    assert_eq!(parse.message.as_deref(), Some("receipt parse error: bad"));
    let invite = receipt_target(&invites, Ok("n1".into())).expect("found");
    let wrong = complete_receipt(&mut invites, &mut grants, &invite, None, "mallory", "sig", 7);
    assert_eq!(wrong.message.as_deref(), Some("receipt signer mismatch invitee"));
    let unverified = complete_receipt(&mut invites, &mut grants, &invite, Some("bad sig".into()), "guest", "sig", 7);
    assert_eq!(unverified.message.as_deref(), Some("receipt verify error: bad sig"));
    assert!(!grants.is_granted("priv-b", "guest"));
    let ok = complete_receipt(&mut invites, &mut grants, &invite, None, "guest", "sig", 7);
    assert!(ok.ok);
    assert_eq!(ok.message, None);
    assert!(grants.is_granted("priv-b", "guest"));
    assert_eq!(invites.list()[0].status, InviteStatus::Accepted);
    assert_eq!(invites.list()[0].receipt_sig.as_deref(), Some("sig"));
    let again = complete_receipt(&mut invites, &mut grants, &invite, None, "guest", "sig", 8);
    assert!(!again.ok);
    assert_eq!(again.message.as_deref(), Some("accept error: nonce n1 not pending (status=Accepted)"));
}
