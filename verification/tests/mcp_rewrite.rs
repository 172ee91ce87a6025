use acp_agent::config::McpDefinition;
use acp_agent::mcp::{plan, rewrite, McpLine, McpPlan, McpServerRef, McpServers, MCP_REJECT_CODE};
use serde_json::Value;

fn defs() -> Vec<McpDefinition> {
    vec![McpDefinition { name: "fs".to_owned(), definition: "{\"args\":[\"fs-server.js\"],\"command\":\"node\"}".to_owned() }]
}

fn session_new(servers: Option<McpServers>) -> McpLine {
    McpLine { method: Some("session/new".to_owned()), servers, id: Some("1".to_owned()) }
}

fn named(name: &str) -> McpServerRef {
    McpServerRef { name: Some(name.to_owned()), text: format!("{{\"name\":\"{name}\"}}") }
}

#[test]
fn plan_default_peer_strips_field() {
    let servers = McpServers::Entries(vec![McpServerRef { name: None, text: "{\"command\":\"evil\"}".into() }]);
    let p = plan(&session_new(Some(servers)), &vec![], &vec![]);
    assert_eq!(p, McpPlan::Strip { entries: 1 });
}

#[test]
fn plan_non_target_lines_pass_byte_identical() {
    let ping = McpLine { method: Some("ping".into()), servers: None, id: None };
    assert_eq!(plan(&ping, &vec![], &vec![]), McpPlan::Untouched);
    let junk = McpLine { method: None, servers: None, id: None };
    assert_eq!(plan(&junk, &vec!["fs".to_owned()], &defs()), McpPlan::Untouched);
    assert_eq!(plan(&session_new(None), &vec!["fs".to_owned()], &defs()), McpPlan::Untouched);
}

#[test]
fn plan_whitelist_replaces_with_host_definitions() {
    let servers = McpServers::Entries(vec![named("fs")]);
    let p = plan(&session_new(Some(servers)), &vec!["fs".to_owned()], &defs());
    assert_eq!(
        p,
        McpPlan::Replace { names: vec!["fs".to_owned()], definitions: vec![defs()[0].definition.clone()] }
    );
}

#[test]
fn plan_whitelist_outside_reference_rejects_whole_request() {
    let evil = McpServerRef { name: Some("evil".into()), text: "{\"command\":\"rm\",\"name\":\"evil\"}".into() };
    let servers = McpServers::Entries(vec![named("fs"), evil]);
    let McpPlan::Reject { detail, wire_error } = plan(&session_new(Some(servers)), &vec!["fs".to_owned()], &defs()) else {
        panic!("must reject")
    };
    assert_eq!(detail, "mcp name 'evil' not in allow_mcp whitelist");
    let err: serde_json::Value = serde_json::from_str(&wire_error.expect("answerable")).expect("json");
    assert_eq!(err["id"], 1);
    assert_eq!(err["error"]["code"], MCP_REJECT_CODE);
    assert_eq!(err["error"]["message"], "mcp-servers-rejected");
}

#[test]
fn plan_notification_rejection_has_no_wire_answer() {
    let line = McpLine {
        method: Some("session/new".into()),
        servers: Some(McpServers::Entries(vec![named("x")])),
        id: None,
    };
    let McpPlan::Reject { wire_error, .. } = plan(&line, &vec!["fs".to_owned()], &defs()) else {
        panic!("must reject")
    };
    assert!(wire_error.is_none());
}

#[test]
fn plan_non_array_field_is_rejected() {
    let servers = McpServers::NotArray { text: "\"oops\"".into() };
    let McpPlan::Reject { detail, .. } = plan(&session_new(Some(servers)), &vec!["fs".to_owned()], &defs()) else {
        panic!("must reject")
    };
    assert_eq!(detail, "mcpServers must be an array, got \"oops\"");
}

#[test]
fn plan_allowed_but_undefined_name_is_rejected() {
    let servers = McpServers::Entries(vec![named("db")]);
    let McpPlan::Reject { detail, .. } = plan(&session_new(Some(servers)), &vec!["db".to_owned()], &defs()) else {
        panic!("must reject")
    };
    assert_eq!(detail, "mcp name 'db' allowed but not predefined on host");
}

#[test]
fn plan_entry_without_name_is_rejected() {
    let servers = McpServers::Entries(vec![McpServerRef { name: None, text: "{\"command\":\"x\"}".into() }]);
    let McpPlan::Reject { detail, .. } = plan(&session_new(Some(servers)), &vec!["fs".to_owned()], &defs()) else {
        panic!("must reject")
    };
    assert_eq!(detail, "mcpServers entry must reference by name, got {\"command\":\"x\"}");
}

#[test]
fn plan_strip_of_non_array_counts_nothing() {
    let servers = McpServers::NotArray { text: "{}".into() };
    assert_eq!(plan(&session_new(Some(servers)), &vec![], &defs()), McpPlan::Strip { entries: 0 });
}

fn session_new_line(params: &str) -> Vec<u8> {
    let mut line = format!("{{\"id\":1,\"jsonrpc\":\"2.0\",\"method\":\"session/new\",\"params\":{params}}}").into_bytes();
    line.push(b'\n');
    line
}

#[test]
fn default_peer_strips_field() {
    let params = "{\"mcpServers\":[{\"command\":\"evil\"}],\"sessionId\":\"s\"}";
    let out = rewrite(&session_new_line(params), &vec![], &vec![]);
    assert_eq!(out.action, "stripped");
    assert_eq!(out.detail, "removed mcpServers with 1 entries");
    let sent = out.child_line.expect("forward");
    assert_eq!(sent.last(), Some(&b'\n'));
    let root: Value = serde_json::from_slice(&sent).expect("json");
    assert!(root["params"].get("mcpServers").is_none());
    assert_eq!(root["params"]["sessionId"], "s");
    assert!(out.wire_error.is_none());
}

#[test]
fn non_target_lines_pass_byte_identical() {
    let ping = b"{\"method\":\"ping\"}\n".to_vec();
    let out = rewrite(&ping, &vec![], &vec![]);
    assert_eq!(out.action, "untouched");
    assert_eq!(out.child_line.expect("bytes"), ping);

    let junk = b"not json at all\n".to_vec();
    let out = rewrite(&junk, &vec!["fs".to_owned()], &defs());
    assert_eq!(out.action, "untouched");
    assert_eq!(out.child_line.expect("bytes"), junk);
}

#[test]
fn whitelist_replaces_with_host_definitions() {
    let out = rewrite(&session_new_line("{\"mcpServers\":[{\"name\":\"fs\"}]}"), &vec!["fs".to_owned()], &defs());
    assert_eq!(out.action, "replaced");
    assert_eq!(out.detail, "substituted host definitions for [\"fs\"]");
    let root: Value = serde_json::from_slice(&out.child_line.expect("fwd")).expect("json");
    assert_eq!(root["params"]["mcpServers"][0]["command"], "node");
}

#[test]
fn whitelist_outside_reference_rejects_whole_request() {
    let params = "{\"mcpServers\":[{\"name\":\"fs\"},{\"command\":\"rm\",\"name\":\"evil\"}]}";
    let out = rewrite(&session_new_line(params), &vec!["fs".to_owned()], &defs());
    assert_eq!(out.action, "rejected");
    assert!(out.child_line.is_none());
    let err: Value = serde_json::from_str(&out.wire_error.expect("answerable")).expect("json");
    assert_eq!(err["id"], 1);
    assert_eq!(err["error"]["code"], MCP_REJECT_CODE);
}

#[test]
fn notification_rejection_has_no_wire_answer() {
    let line = b"{\"jsonrpc\":\"2.0\",\"method\":\"session/new\",\"params\":{\"mcpServers\":[{\"name\":\"x\"}]}}\n".to_vec();
    let out = rewrite(&line, &vec!["fs".to_owned()], &defs());
    assert_eq!(out.action, "rejected");
    assert!(out.wire_error.is_none());
}

#[test]
fn non_array_field_is_rejected() {
    let out = rewrite(&session_new_line("{\"mcpServers\":\"oops\"}"), &vec!["fs".to_owned()], &defs());
    assert_eq!(out.action, "rejected");
    assert_eq!(out.detail, "mcpServers must be an array, got \"oops\"");
}

#[test]
fn session_new_without_servers_passes_untouched() {
    let line = session_new_line("{\"sessionId\":\"s\"}");
    let out = rewrite(&line, &vec!["fs".to_owned()], &defs());
    assert_eq!(out.action, "untouched");
    assert_eq!(out.child_line.expect("bytes"), line);
}

#[test]
fn null_id_rejection_has_no_wire_answer() {
    let line = b"{\"id\":null,\"method\":\"session/new\",\"params\":{\"mcpServers\":[{\"name\":\"x\"}]}}".to_vec();
    let out = rewrite(&line, &vec!["fs".to_owned()], &defs());
    assert_eq!(out.action, "rejected");
    assert_eq!(out.detail, "mcp name 'x' not in allow_mcp whitelist");
    assert!(out.wire_error.is_none());
}

#[test]
fn unparsable_host_definition_rejects() {
    let bad = vec![McpDefinition { name: "fs".to_owned(), definition: "not json".to_owned() }];
    let out = rewrite(&session_new_line("{\"mcpServers\":[{\"name\":\"fs\"}]}"), &vec!["fs".to_owned()], &bad);
    assert_eq!(out.action, "rejected");
    assert_eq!(out.detail, "host mcp definition is not JSON");
    assert!(out.child_line.is_none());
    assert!(out.wire_error.is_some());
}
