use acp_agent::admin::{admin_route, find_head_end, ready_line, AdminRoute};

#[test]
fn ready_line_matches_frozen_shape() {
    let line = ready_line(8123, "/tmp/acp-data/acp-admin-token");
    let parsed: serde_json::Value = serde_json::from_str(&line).expect("json line");
    assert_eq!(parsed["kind"], "ready");
    assert_eq!(parsed["admin"]["port"], 8123);
    assert_eq!(parsed["admin"]["token_file"], "/tmp/acp-data/acp-admin-token");
}

#[test]
fn ready_line_shape_still_frozen() {
    let line = ready_line(8123, "/tmp/x/acp-admin-token");
    let parsed: serde_json::Value = serde_json::from_str(&line).expect("json line");
    assert_eq!(parsed["admin"]["port"], 8123);
}

#[test]
fn ready_line_text_is_exact() {
    assert_eq!(ready_line(0, "/t"), "{\"kind\":\"ready\",\"admin\":{\"port\":0,\"token_file\":\"/t\"}}");
}

#[test]
fn ready_line_escapes_quote_and_backslash_in_path() {
    let line = ready_line(8123, "/tmp/a\"b\\c\n");
    let parsed: serde_json::Value = serde_json::from_str(&line).expect("json line");
    assert_eq!(parsed["admin"]["port"], 8123);
    assert_eq!(parsed["admin"]["token_file"], "/tmp/a\"b\\c\n");
    assert_eq!(
        line,
        "{\"kind\":\"ready\",\"admin\":{\"port\":8123,\"token_file\":\"/tmp/a\\\"b\\\\c\\n\"}}"
    );
}

#[test]
fn ready_line_escapes_control_characters() {
    let line = ready_line(1, "a\u{1}b");
    assert_eq!(line, "{\"kind\":\"ready\",\"admin\":{\"port\":1,\"token_file\":\"a\\u0001b\"}}");
    let parsed: serde_json::Value = serde_json::from_str(&line).expect("json line");
    assert_eq!(parsed["admin"]["token_file"], "a\u{1}b");
}

#[test]
fn head_end_is_the_first_blank_line() {
    assert_eq!(find_head_end(b"GET / HTTP/1.1\r\nA: b\r\n\r\nbody\r\n\r\n"), Some(20));
    assert_eq!(find_head_end(b"GET / HTTP/1.1\r\n"), None);
    assert_eq!(find_head_end(b""), None);
    assert_eq!(find_head_end(b"\r\n\r\n"), Some(0));
}

#[test]
fn head_parsing_reads_method_path_bearer_and_length() {
    let head = "POST /shares HTTP/1.1\r\nHost: x\r\nauthorization:  Bearer tok-123 \r\nContent-Length: 17\r\n";
    assert_eq!(
        acp_agent::admin::parse_head(head),
        ("POST".to_owned(), "/shares".to_owned(), Some("tok-123".to_owned()), Some(17))
    );
}

#[test]
fn head_parsing_stops_at_blank_line_and_later_headers_win() {
    let head = "GET /x\r\nAuthorization: Bearer a\r\nAUTHORIZATION: Basic b\r\n\r\nContent-Length: 5";
    assert_eq!(acp_agent::admin::parse_head(head), ("GET".to_owned(), "/x".to_owned(), None, None));
    let head = "GET\r\ncontent-length: +7\r\nbogus line\r\nCONTENT-LENGTH: 12x";
    assert_eq!(acp_agent::admin::parse_head(head), ("GET".to_owned(), String::new(), None, None));
    let head = "GET / HTTP/1.1\r\nContent-Length: +7";
    assert_eq!(acp_agent::admin::parse_head(head).3, Some(7));
    assert_eq!(acp_agent::admin::parse_head("").0, "");
}

#[test]
fn admin_requests_route_by_method_and_target() {
    assert_eq!(admin_route("POST", "/shares"), AdminRoute::CreateShare);
    assert_eq!(admin_route("GET", "/shares"), AdminRoute::ListShares);
    assert_eq!(admin_route("DELETE", "/shares/abc"), AdminRoute::RevokeShare { share_id: "abc".into() });
    assert_eq!(
        admin_route("DELETE", "/shares//shares/x"),
        AdminRoute::RevokeShare { share_id: "x".into() },
        "every leading copy of the prefix goes"
    );
    assert_eq!(admin_route("DELETE", "/shares/shares/x"), AdminRoute::RevokeShare { share_id: "shares/x".into() });
    assert_eq!(admin_route("GET", "/workspaces"), AdminRoute::ListWorkspaces);
    assert_eq!(admin_route("POST", "/workspaces"), AdminRoute::AddWorkspace);
    assert_eq!(admin_route("DELETE", "/workspaces/tmp"), AdminRoute::RemoveWorkspace { id: "tmp".into() });
    assert_eq!(admin_route("GET", "/a2a/agents"), AdminRoute::ListAgents);
    assert_eq!(admin_route("POST", "/a2a/agents"), AdminRoute::CreateAgent);
    assert_eq!(admin_route("PUT", "/a2a/agents/a1"), AdminRoute::UpdateAgent { agent_id: "a1".into() });
    assert_eq!(admin_route("DELETE", "/a2a/agents/a1"), AdminRoute::RemoveAgent { agent_id: "a1".into() });
    assert_eq!(admin_route("GET", "/shares/abc"), AdminRoute::NotFound);
    assert_eq!(admin_route("PATCH", "/shares"), AdminRoute::NotFound);
    assert_eq!(admin_route("DELETE", "/elsewhere"), AdminRoute::NotFound);
}
