use acp_agent::chunk::{is_chunk_update, to_part, ChunkContent, Part, FILE_PART_CAP_BYTES};
use acp_agent::permission::RpcMessage;

fn content(kind: Option<&str>, text: Option<&str>, data: Option<&str>, mime: Option<&str>, json: &str) -> ChunkContent {
    ChunkContent {
        kind: kind.map(str::to_owned),
        text: text.map(str::to_owned),
        data: data.map(str::to_owned),
        mime: mime.map(str::to_owned),
        json: json.to_owned(),
    }
}

fn update(method: &str, kind: Option<&str>) -> RpcMessage {
    RpcMessage {
        has_method: true,
        method: Some(method.into()),
        id: None,
        session_id: Some("s".into()),
        update_kind: kind.map(str::to_owned),
        tool_kind: None,
        options: None,
    }
}

#[test]
fn text_chunk_maps_to_text_part() {
    assert!(is_chunk_update(&update("session/update", Some("agent_message_chunk"))));
    let (part, over) = to_part(&content(Some("text"), Some("你好"), None, None, "{\"text\":\"你好\",\"type\":\"text\"}"));
    assert!(!over);
    assert_eq!(part, Part::Text { text: "你好".into() });
}

#[test]
fn image_chunk_maps_to_file_part_with_cap() {
    let small = content(Some("image"), None, Some("aGk="), Some("image/png"), "{}");
    let (part, over) = to_part(&small);
    assert!(!over);
    assert!(matches!(part, Part::File { .. }));
    let big_data = "x".repeat(FILE_PART_CAP_BYTES + 1);
    let big = content(Some("image"), None, Some(&big_data), None, "{}");
    let (part, over) = to_part(&big);
    assert!(over, "an image over 4 MiB must be flagged");
    assert!(matches!(part, Part::File { mime_type, .. } if mime_type == "image/png"));
}

#[test]
fn unknown_content_folds_to_data_part() {
    let json = "{\"type\":\"resource_link\",\"uri\":\"https://x\"}";
    let (part, over) = to_part(&content(Some("resource_link"), None, None, None, json));
    assert!(!over);
    assert_eq!(part, Part::Data { json: json.to_owned() });
}

#[test]
fn non_update_lines_are_not_chunks() {
    let mut m = update("session/request_permission", None);
    m.session_id = None;
    assert!(!is_chunk_update(&m));
    assert!(!is_chunk_update(&update("session/update", Some("tool_call"))));
}

#[test]
fn cap_counts_utf8_bytes() {
    let exact = "x".repeat(FILE_PART_CAP_BYTES);
    assert!(!to_part(&content(Some("image"), None, Some(&exact), None, "{}")).1);
    let wide = "你".repeat(FILE_PART_CAP_BYTES / 3 + 1);
    assert!(to_part(&content(Some("image"), None, Some(&wide), None, "{}")).1);
}
