use acp_agent::stub::parse_stub_args;

fn words(list: &[&str]) -> Vec<String> {
    list.iter().map(|w| (*w).to_owned()).collect()
}

#[test]
fn no_flags_give_the_defaults() {
    let (a, ignored) = parse_stub_args(&vec![]);
    assert!(!a.say_stderr && !a.print_cwd && !a.emit_enabled && !a.acp_agent);
    assert_eq!((a.emit_updates, a.emit_ms, a.acp_chunks, a.prompt_hold_ms), (0, 50, 1, 0));
    assert_eq!(a.session, "s1");
    assert_eq!(a.acp_text, "echo");
    assert_eq!(a.acp_perm_kind, None);
    assert!(ignored.is_empty());
}

#[test]
fn flags_and_values_are_read_in_order() {
    let raw = words(&[
        "--say-stderr", "--emit-updates", "3", "20", "--session", "s9", "--acp-agent", "--acp-chunks", "+4",
        "--acp-text", "hi", "--prompt-hold", "250", "--acp-perm", "execute", "--bogus", "--print-cwd",
    ]);
    let (a, ignored) = parse_stub_args(&raw);
    assert!(a.say_stderr && a.print_cwd && a.emit_enabled && a.acp_agent);
    assert_eq!((a.emit_updates, a.emit_ms, a.acp_chunks, a.prompt_hold_ms), (3, 20, 4, 250));
    assert_eq!(a.session, "s9");
    assert_eq!(a.acp_text, "hi");
    assert_eq!(a.acp_perm_kind, Some("execute".to_owned()));
    assert_eq!(ignored, words(&["--bogus"]));
}

#[test]
fn bad_or_missing_numbers_keep_defaults() {
    let (a, ignored) = parse_stub_args(&words(&["--emit-updates", "x", "-5", "--acp-chunks", "99999999999999999999"]));
    assert!(a.emit_enabled);
    assert_eq!((a.emit_updates, a.emit_ms, a.acp_chunks), (0, 50, 1));
    assert!(ignored.is_empty());
    let (a, _) = parse_stub_args(&words(&["--emit-updates", "7"]));
    assert_eq!((a.emit_updates, a.emit_ms), (7, 50));
    let (a, _) = parse_stub_args(&words(&["--acp-perm", "read", "--acp-perm"]));
    assert_eq!(a.acp_perm_kind, None, "a later flag without its value clears the kind");
    let (a, _) = parse_stub_args(&words(&["--session"]));
    assert_eq!(a.session, "s1");
}
