use acp_agent::config::{assemble, AgentConfig, Cli, ConfigError, DEFAULT_GRACE_SECS, DEFAULT_MAX_CONNECTIONS};
use acp_agent::workspaces::{WorkspaceDef, DEFAULT_WORKSPACE_ID};

fn defaults() -> AgentConfig {
    AgentConfig::defaults("/dsh-acp/1".to_owned(), 300, 60)
}

fn no_overrides() -> Cli {
    Cli {
        config: None,
        data_dir: None,
        quic_port: None,
        tcp_port: None,
        agent_name: None,
        command: None,
        policy_path: None,
        log_dir: None,
        max_connections: None,
        grace_secs: None,
    }
}

#[test]
fn defaults_match_design() {
    let cfg = defaults();
    assert_eq!(cfg.protocol_id, "/dsh-acp/1");
    assert_eq!(cfg.command, vec!["pnpm", "dsh", "--profile", "acp"]);
    assert_eq!(cfg.max_connections, 8);
    assert_eq!(cfg.grace_secs, 10);
    assert_eq!(DEFAULT_MAX_CONNECTIONS, 8);
    assert_eq!(DEFAULT_GRACE_SECS, 10);
    cfg.validate().expect("defaults must validate");
}

#[test]
fn validate_rejects_empty_command() {
    let mut cfg = defaults();
    cfg.command.clear();
    assert!(cfg.validate().is_err());
    cfg.command = vec!["ok".into(), "".into()];
    assert_eq!(cfg.validate(), Err(ConfigError::EmptyCommand));
}

#[test]
fn timing_floors_are_one_second() {
    let mut cfg = defaults();
    cfg.grace_secs = 0;
    cfg.reattach_window_secs = 0;
    cfg.permission_timeout_secs = 0;
    assert_eq!(cfg.grace(), 1);
    assert_eq!(cfg.window(), 1);
    assert_eq!(cfg.permission_timeout(), 1);
    cfg.grace_secs = 7;
    assert_eq!(cfg.grace(), 7);
}

#[test]
fn workspace_resolves_explicit_rows() {
    let mut cfg = defaults();
    cfg.workspaces = vec![WorkspaceDef { id: "ws1".to_owned(), name: "p2p".to_owned(), dir: "/tmp/ws1".to_owned() }];
    let hit = cfg.workspace(Some("ws1")).expect("ws1");
    assert_eq!(hit.dir, "/tmp/ws1");
    assert!(cfg.workspace(Some("ws2")).is_none());
    assert!(cfg.workspace(None).is_none(), "no default workspace without a legacy directory");
}

#[test]
fn workspace_none_falls_back_to_legacy_dir() {
    let mut cfg = defaults();
    cfg.workspace_dir = Some("/tmp/legacy".to_owned());
    let hit = cfg.workspace(None).expect("legacy default");
    assert_eq!(hit.id, DEFAULT_WORKSPACE_ID);
    assert_eq!(hit.dir, "/tmp/legacy");
}

#[test]
fn workspace_rows_merge_legacy_without_dup() {
    let mut cfg = defaults();
    cfg.workspace_dir = Some("/tmp/legacy".to_owned());
    assert_eq!(cfg.workspace_rows().len(), 1);
    cfg.workspaces =
        vec![WorkspaceDef { id: DEFAULT_WORKSPACE_ID.to_owned(), name: "main".to_owned(), dir: "/tmp/legacy".to_owned() }];
    assert_eq!(cfg.workspace_rows().len(), 1, "an explicit default row is not doubled");
}

#[test]
fn overrides_replace_file_values() {
    let mut cli = no_overrides();
    cli.command = Some("  node  agent.js ".into());
    cli.max_connections = Some(3);
    cli.data_dir = Some("/srv/acp".into());
    let cfg = assemble(defaults(), &cli).expect("valid");
    assert_eq!(cfg.command, vec!["node", "agent.js"]);
    assert_eq!(cfg.max_connections, 3);
    assert_eq!(cfg.data_dir, "/srv/acp");
    assert_eq!(cfg.grace_secs, 10);
    let unchanged = assemble(defaults(), &no_overrides()).expect("valid");
    assert_eq!(unchanged, defaults());
}

#[test]
fn blank_command_override_is_refused() {
    let mut cli = no_overrides();
    cli.command = Some("   ".into());
    assert_eq!(assemble(defaults(), &cli), Err(ConfigError::EmptyCommand));
}
