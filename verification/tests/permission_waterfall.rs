use acp_agent::permission::{
    classify, decide, decide_gated, decide_scoped, rejected_response, AskRoute, Decision, GatedDecision,
    PermissionOption, RpcMessage, CANCELLED_OUTCOME, SELECTED_OUTCOME,
};
use serde_json::Value;

/// Reads a JSON-RPC line the way the bridge host does.
fn message_of(root: &Value) -> RpcMessage {
    let obj = root.as_object();
    let get = |k: &str| obj.and_then(|o| o.get(k));
    let params = get("params");
    RpcMessage {
        has_method: get("method").is_some(),
        method: get("method").and_then(Value::as_str).map(str::to_owned),
        id: get("id").map(|v| v.to_string()),
        session_id: params.and_then(|p| p.get("sessionId")).and_then(Value::as_str).map(str::to_owned),
        update_kind: params
            .and_then(|p| p.get("update"))
            .and_then(|u| u.get("sessionUpdate"))
            .and_then(Value::as_str)
            .map(str::to_owned),
        tool_kind: params
            .and_then(|p| p.get("toolCall"))
            .and_then(|t| t.get("kind"))
            .and_then(Value::as_str)
            .map(str::to_owned),
        options: params.and_then(|p| p.get("options")).and_then(Value::as_array).map(|opts| {
            opts.iter()
                .map(|o| PermissionOption {
                    kind: o.get("kind").and_then(Value::as_str).map(str::to_owned),
                    option_id: o.get("optionId").map(|v| v.to_string()),
                })
                .collect()
        }),
    }
}

fn request(kind: &str, options: &str) -> RpcMessage {
    let text = format!(
        "{{\"jsonrpc\":\"2.0\",\"id\":7,\"method\":\"session/request_permission\",\"params\":{{\"toolCall\":{{\"kind\":\"{kind}\",\"title\":\"demo\"}},\"options\":{options}}}}}"
    );
    message_of(&serde_json::from_str::<Value>(&text).expect("json"))
}

fn options() -> &'static str {
    "[{\"optionId\":\"allow-once\",\"name\":\"Allow\",\"kind\":\"allow_once\"},{\"optionId\":\"reject-once\",\"name\":\"Deny\",\"kind\":\"reject_once\"}]"
}

fn parse(text: &str) -> Value {
    serde_json::from_str(text).expect("json")
}

#[test]
fn read_kind_auto_allows_first_allow_option() {
    let req = classify(&request("read", options())).expect("permission request");
    let Decision::AutoAllow(response) = decide(&req, AskRoute::RemoteGui) else {
        panic!("read must auto-allow")
    };
    let root = parse(&response);
    assert_eq!(root["result"]["outcome"]["outcome"], SELECTED_OUTCOME);
    assert_eq!(root["result"]["outcome"]["optionId"], "allow-once");
}

#[test]
fn execute_kind_routes_by_ask_route() {
    let req = classify(&request("execute", options())).expect("permission request");
    assert!(matches!(decide(&req, AskRoute::RemoteGui), Decision::Forward));
    let Decision::OwnerLocal(response) = decide(&req, AskRoute::OwnerLocal) else {
        panic!("owner_local must reject locally")
    };
    let root = parse(&response);
    assert_eq!(root["result"]["outcome"]["outcome"], CANCELLED_OUTCOME);
}

#[test]
fn unknown_kind_defaults_to_ask() {
    for kind in ["delete", "move", "other", "surprise"] {
        let req = classify(&request(kind, options())).expect("permission request");
        assert!(matches!(decide(&req, AskRoute::RemoteGui), Decision::Forward));
    }
}

#[test]
fn missing_allow_option_falls_back_to_ask() {
    let req = classify(&request("read", "[]")).expect("permission request");
    assert!(matches!(decide(&req, AskRoute::RemoteGui), Decision::Forward));
}

#[test]
fn non_permission_lines_are_not_classified() {
    for line in [
        "{\"jsonrpc\":\"2.0\",\"id\":1,\"method\":\"initialize\",\"params\":{}}",
        "{\"jsonrpc\":\"2.0\",\"method\":\"session/update\",\"params\":{}}",
        "{\"jsonrpc\":\"2.0\",\"method\":\"session/request_permission\",\"params\":{}}",
    ] {
        assert!(classify(&message_of(&parse(line))).is_none());
    }
}

#[test]
fn null_id_is_not_answerable() {
    let line = "{\"jsonrpc\":\"2.0\",\"id\":null,\"method\":\"session/request_permission\",\"params\":{}}";
    assert!(classify(&message_of(&parse(line))).is_none());
}

#[test]
fn remote_visibility_rejects_read_and_execute_via_owner_local() {
    for kind in ["read", "fetch", "execute", "edit", "delete", "other"] {
        let req = classify(&request(kind, options())).expect("permission request");
        let decision = decide_scoped(&req, AskRoute::OwnerLocal, false);
        assert!(
            matches!(decision, Decision::OwnerLocal(_)),
            "{kind} must route to owner-local reject for remote agents"
        );
    }
}

#[test]
fn remote_visibility_still_bridge_answers_think() {
    let req = classify(&request("think", options())).expect("permission request");
    assert!(matches!(decide_scoped(&req, AskRoute::OwnerLocal, false), Decision::AutoAllow(_)));
}

#[test]
fn local_visibility_static_allows_read_rejects_execute_by_route() {
    let read = classify(&request("read", options())).expect("permission request");
    assert!(matches!(decide_scoped(&read, AskRoute::RemoteGui, true), Decision::AutoAllow(_)));
    let execute = classify(&request("execute", options())).expect("permission request");
    assert!(matches!(decide_scoped(&execute, AskRoute::RemoteGui, true), Decision::Forward));
}

#[test]
fn decide_matches_scoped_local_for_acp_flow() {
    for kind in ["read", "think", "fetch", "execute"] {
        let req = classify(&request(kind, options())).expect("permission request");
        let a = decide(&req, AskRoute::RemoteGui);
        let b = decide_scoped(&req, AskRoute::RemoteGui, true);
        assert_eq!(std::mem::discriminant(&a), std::mem::discriminant(&b), "{kind}");
    }
}

#[test]
fn gate_denied_forward_lands_as_local_reject_without_popup() {
    let req = classify(&request("execute", options())).expect("permission request");
    let decision = decide_gated(&req, AskRoute::RemoteGui, || false);
    let GatedDecision::AuthzDenied(response) = decision else {
        panic!("execute ask without acp.execute must be locally rejected");
    };
    assert_eq!(
        parse(&response)["result"]["outcome"]["outcome"],
        "cancelled",
        "authz denial must be a reject-once answer, never a forwarded ask"
    );
}

#[test]
fn gate_allowed_forward_keeps_the_ask_route() {
    let req = classify(&request("execute", options())).expect("permission request");
    assert!(matches!(decide_gated(&req, AskRoute::RemoteGui, || true), GatedDecision::Inner(Decision::Forward)));
}

#[test]
fn static_allow_and_owner_local_never_call_the_gate() {
    let calls = std::cell::Cell::new(0usize);
    let gate = || {
        calls.set(calls.get() + 1);
        true
    };
    let read = classify(&request("read", options())).expect("permission request");
    assert!(matches!(decide_gated(&read, AskRoute::RemoteGui, gate), GatedDecision::Inner(Decision::AutoAllow(_))));
    let execute = classify(&request("execute", options())).expect("permission request");
    assert!(matches!(
        decide_gated(&execute, AskRoute::OwnerLocal, gate),
        GatedDecision::Inner(Decision::OwnerLocal(_))
    ));
    assert_eq!(calls.get(), 0, "non-ask paths must not trigger authz IO");
}

#[test]
fn answers_are_exact_json_texts() {
    assert_eq!(
        rejected_response("7"),
        "{\"id\":7,\"jsonrpc\":\"2.0\",\"result\":{\"outcome\":{\"outcome\":\"cancelled\"}}}"
    );
    let req = classify(&request("think", options())).expect("permission request");
    assert_eq!(req.allow_option.as_deref(), Some("\"allow-once\""));
    assert_eq!(
        decide(&req, AskRoute::OwnerLocal),
        Decision::AutoAllow(
            "{\"id\":7,\"jsonrpc\":\"2.0\",\"result\":{\"outcome\":{\"optionId\":\"allow-once\",\"outcome\":\"selected\"}}}"
                .to_owned()
        )
    );
}

#[test]
fn allow_option_without_id_selects_null() {
    let req = classify(&request("think", "[{\"kind\":\"allow_always\"}]")).expect("permission request");
    assert_eq!(req.allow_option.as_deref(), Some("null"));
}
