//! Bridge configuration: every field has a default; a JSON file may omit any
//! field and command-line arguments override one by one. No secrets live
//! here (API keys only reach the child's environment).

use vstd::prelude::*;
use vstd::string::*;

use crate::text::{split_words, str_eq, words_text};
use crate::workspaces::{
    has_workspace, opt_text, opt_workspace, resolve_spec, workspaces_view, WorkspaceDef, WorkspaceStore,
    WorkspacesLoad,
};

verus! {

broadcast use vstd::string::group_string_axioms;

/// Default data directory.
pub const DEFAULT_DATA_DIR: &'static str = "./acp-data";
/// Default agent name announced in `ready`.
pub const DEFAULT_AGENT_NAME: &'static str = "home-agent";
/// Default cap on concurrent connections (an 8 GB node serves 8 consoles).
pub const DEFAULT_MAX_CONNECTIONS: u32 = 8;
/// Default grace period (seconds) of a child after its client left.
pub const DEFAULT_GRACE_SECS: u64 = 10;
/// Size cap of one rolling child stderr log file.
pub const CHILD_LOG_MAX_BYTES: u64 = 4 * 1024 * 1024;
/// Number of rolling child stderr log files.
pub const CHILD_LOG_MAX_FILES: usize = 3;

/// A predefined MCP server: its name and its full definition (JSON text).
#[derive(Debug, Clone, PartialEq, Eq)]
pub struct McpDefinition {
    pub name: String,
    pub definition: String,
}

/// Bridge configuration.
#[derive(Debug, Clone, PartialEq, Eq)]
pub struct AgentConfig {
    /// Data directory: policy table, child logs and node identity live under it.
    pub data_dir: String,
    /// Listening ports (0 = random).
    pub quic_port: u16,
    pub tcp_port: u16,
    /// Bridge protocol id.
    pub protocol_id: String,
    /// Agent name announced in `ready`.
    pub agent_name: String,
    /// Child command line (argv), one child per connection.
    pub command: Vec<String>,
    /// Policy table path (None = under the data directory).
    pub policy_path: Option<String>,
    /// Child stderr log directory (None = under the data directory).
    pub log_dir: Option<String>,
    /// Cap on concurrent connections.
    pub max_connections: u32,
    /// Grace period in seconds.
    pub grace_secs: u64,
    /// Sandbox jail root (None = under the data directory).
    pub sandbox_root: Option<String>,
    /// Legacy single workspace directory.
    pub workspace_dir: Option<String>,
    /// Named workspaces.
    pub workspaces: Vec<WorkspaceDef>,
    /// Reattach window in seconds.
    pub reattach_window_secs: u64,
    /// Cap in seconds on a client's permission answer.
    pub permission_timeout_secs: u64,
    /// Predefined MCP servers (the command bytes stay with the host).
    pub mcp_definitions: Vec<McpDefinition>,
    /// MCP definitions file; when set its content replaces the inline ones.
    pub mcp_definitions_path: Option<String>,
    /// Local admin HTTP port (0 = random).
    pub admin_port: u16,
    /// The local admin HTTP face is off.
    pub admin_disabled: bool,
}

/// Configuration errors.
#[derive(Debug, Clone, PartialEq, Eq)]
pub enum ConfigError {
    Io { path: String, detail: String },
    Json { path: String, detail: String },
    EmptyCommand,
    McpFileIo { path: String, detail: String },
    McpFileJson { path: String, detail: String },
    McpFileShape { path: String },
}

/// Command-line overrides (each one replaces the file's value when given).
#[derive(Debug, Clone, PartialEq, Eq)]
pub struct Cli {
    pub config: Option<String>,
    pub data_dir: Option<String>,
    pub quic_port: Option<u16>,
    pub tcp_port: Option<u16>,
    pub agent_name: Option<String>,
    pub command: Option<String>,
    pub policy_path: Option<String>,
    pub log_dir: Option<String>,
    pub max_connections: Option<u32>,
    pub grace_secs: Option<u64>,
}

/// The command is a non-empty argv of non-empty words.
pub open spec fn command_ok(command: Seq<String>) -> bool {
    command.len() > 0 && forall|i: int| 0 <= i < command.len() ==> (#[trigger] command[i])@.len() > 0
}

/// A non-empty list of non-empty words.
pub open spec fn words_ok(words: Seq<Seq<char>>) -> bool {
    words.len() > 0 && forall|i: int| 0 <= i < words.len() ==> (#[trigger] words[i]).len() > 0
}

/// A floor of one second.
pub open spec fn at_least_one(secs: u64) -> u64 {
    if secs >= 1 {
        secs
    } else {
        1
    }
}

impl AgentConfig {
    /// The default configuration, with the protocol id and the two timing
    /// defaults that the shared protocol constants fix.
    pub fn defaults(protocol_id: String, reattach_window_secs: u64, permission_timeout_secs: u64) -> (c: Self)
        ensures
            c.data_dir@ == DEFAULT_DATA_DIR@,
            c.quic_port == 0 && c.tcp_port == 0,
            c.protocol_id@ == protocol_id@,
            c.agent_name@ == DEFAULT_AGENT_NAME@,
            c.command@.map_values(|w: String| w@) == seq!["pnpm"@, "dsh"@, "--profile"@, "acp"@],
            c.policy_path is None && c.log_dir is None && c.sandbox_root is None && c.workspace_dir is None,
            c.max_connections == DEFAULT_MAX_CONNECTIONS,
            c.grace_secs == DEFAULT_GRACE_SECS,
            c.workspaces@.len() == 0,
            c.reattach_window_secs == reattach_window_secs,
            c.permission_timeout_secs == permission_timeout_secs,
            c.mcp_definitions@.len() == 0,
            c.mcp_definitions_path is None,
            c.admin_port == 0,
            !c.admin_disabled,
    {
        let mut command: Vec<String> = Vec::new();
        command.push("pnpm".to_owned());
        command.push("dsh".to_owned());
        command.push("--profile".to_owned());
        command.push("acp".to_owned());
        assert(command@.map_values(|w: String| w@) =~= seq!["pnpm"@, "dsh"@, "--profile"@, "acp"@]);
        AgentConfig {
            data_dir: DEFAULT_DATA_DIR.to_owned(),
            quic_port: 0,
            tcp_port: 0,
            protocol_id,
            agent_name: DEFAULT_AGENT_NAME.to_owned(),
            command,
            policy_path: None,
            log_dir: None,
            max_connections: DEFAULT_MAX_CONNECTIONS,
            grace_secs: DEFAULT_GRACE_SECS,
            sandbox_root: None,
            workspace_dir: None,
            workspaces: Vec::new(),
            reattach_window_secs,
            permission_timeout_secs,
            mcp_definitions: Vec::new(),
            mcp_definitions_path: None,
            admin_port: 0,
            admin_disabled: false,
        }
    }

    /// The child command must be a non-empty argv without empty words.
    pub fn validate(&self) -> (r: Result<(), ConfigError>)
        ensures
            command_ok(self.command@) ==> r is Ok,
            !command_ok(self.command@) ==> r == Err::<(), ConfigError>(ConfigError::EmptyCommand),
    {
        if self.command.len() == 0 {
            return Err(ConfigError::EmptyCommand);
        }
        let mut i: usize = 0;
        while i < self.command.len()
            invariant
                i <= self.command@.len(),
                forall|k: int| 0 <= k < i ==> (#[trigger] self.command@[k])@.len() > 0,
            decreases self.command@.len() - i,
        {
            if self.command[i].as_str().unicode_len() == 0 {
                return Err(ConfigError::EmptyCommand);
            }
            i = i + 1;
        }
        Ok(())
    }

    /// Grace period in seconds, at least one (zero would turn the exit ladder
    /// into an immediate kill).
    pub fn grace(&self) -> (secs: u64)
        ensures
            secs == at_least_one(self.grace_secs),
    {
        if self.grace_secs >= 1 {
            self.grace_secs
        } else {
            1
        }
    }

    /// Reattach window in seconds, at least one (zero would end every
    /// disconnect in the exit ladder at once).
    pub fn window(&self) -> (secs: u64)
        ensures
            secs == at_least_one(self.reattach_window_secs),
    {
        if self.reattach_window_secs >= 1 {
            self.reattach_window_secs
        } else {
            1
        }
    }

    /// Cap on a permission answer in seconds, at least one.
    pub fn permission_timeout(&self) -> (secs: u64)
        ensures
            secs == at_least_one(self.permission_timeout_secs),
    {
        if self.permission_timeout_secs >= 1 {
            self.permission_timeout_secs
        } else {
            1
        }
    }

    /// Looks a configured workspace up: no id means `default`; explicit rows
    /// first, then the legacy directory for `default`.
    pub fn workspace(&self, id: Option<&str>) -> (r: Option<WorkspaceDef>)
        ensures
            opt_workspace(r) == resolve_spec(workspaces_view(self.workspaces@), opt_text(self.workspace_dir), match id {
                Some(s) => s@,
                None => "default"@,
            }),
    {
        let (store, _) = WorkspaceStore::open(
            &self.workspaces,
            self.workspace_dir.clone(),
            "",
            WorkspacesLoad::Missing,
        ).unwrap();
        store.resolve(id)
    }

    /// All configured workspace rows: explicit ones, then the legacy
    /// `default` row when set and not shadowed by an explicit `default`.
    pub fn workspace_rows(&self) -> (r: Vec<WorkspaceDef>)
        ensures
            workspaces_view(r@) == if self.workspace_dir is Some && !has_workspace(
                workspaces_view(self.workspaces@),
                "default"@,
            ) {
                workspaces_view(self.workspaces@).push(("default"@, "default"@, self.workspace_dir->0@))
            } else {
                workspaces_view(self.workspaces@)
            },
    {
        let (store, _) = WorkspaceStore::open(
            &self.workspaces,
            self.workspace_dir.clone(),
            "",
            WorkspacesLoad::Missing,
        ).unwrap();
        store.rows()
    }
}

/// Applies the command-line overrides to `base` (the file's configuration,
/// or the defaults without a file) and validates the result. The command
/// override is split into words.
pub fn assemble(base: AgentConfig, cli: &Cli) -> (r: Result<AgentConfig, ConfigError>)
    ensures
        r matches Ok(c) ==> command_ok(c.command@),
        r matches Err(e) ==> e == ConfigError::EmptyCommand,
        r matches Ok(c) ==> {
            &&& c.data_dir@ == (match &cli.data_dir { Some(v) => v@, None => base.data_dir@ })
            &&& c.quic_port == (match cli.quic_port { Some(v) => v, None => base.quic_port })
            &&& c.tcp_port == (match cli.tcp_port { Some(v) => v, None => base.tcp_port })
            &&& c.agent_name@ == (match &cli.agent_name { Some(v) => v@, None => base.agent_name@ })
            &&& c.command@.map_values(|w: String| w@) == (match &cli.command {
                Some(v) => words_text(v@),
                None => base.command@.map_values(|w: String| w@),
            })
            &&& opt_text(c.policy_path) == (match &cli.policy_path { Some(v) => Some(v@), None => opt_text(base.policy_path) })
            &&& opt_text(c.log_dir) == (match &cli.log_dir { Some(v) => Some(v@), None => opt_text(base.log_dir) })
            &&& c.max_connections == (match cli.max_connections { Some(v) => v, None => base.max_connections })
            &&& c.grace_secs == (match cli.grace_secs { Some(v) => v, None => base.grace_secs })
            &&& c.protocol_id == base.protocol_id && c.workspace_dir == base.workspace_dir
            &&& c.sandbox_root == base.sandbox_root && c.reattach_window_secs == base.reattach_window_secs
            &&& c.permission_timeout_secs == base.permission_timeout_secs && c.admin_port == base.admin_port
            &&& c.admin_disabled == base.admin_disabled
        },
        r is Ok <==> words_ok(match &cli.command {
            Some(v) => words_text(v@),
            None => base.command@.map_values(|w: String| w@),
        }),
{
    let ghost base_words = base.command@.map_values(|w: String| w@);
    let mut cfg = base;
    if let Some(v) = &cli.data_dir {
        cfg.data_dir = v.clone();
    }
    if let Some(v) = cli.quic_port {
        cfg.quic_port = v;
    }
    if let Some(v) = cli.tcp_port {
        cfg.tcp_port = v;
    }
    if let Some(v) = &cli.agent_name {
        cfg.agent_name = v.clone();
    }
    if let Some(v) = &cli.command {
        cfg.command = split_words(v.as_str());
    }
    if let Some(v) = &cli.policy_path {
        cfg.policy_path = Some(v.clone());
    }
    if let Some(v) = &cli.log_dir {
        cfg.log_dir = Some(v.clone());
    }
    if let Some(v) = cli.max_connections {
        cfg.max_connections = v;
    }
    if let Some(v) = cli.grace_secs {
        cfg.grace_secs = v;
    }
    let ghost words = cfg.command@.map_values(|w: String| w@);
    proof {
        match &cli.command {
            Some(v) => {
                assert(words == words_text(v@));
            },
            None => {
                assert(words == base_words);
            },
        }
        assert(words.len() == cfg.command@.len());
        if command_ok(cfg.command@) {
            assert forall|i: int| 0 <= i < words.len() implies (#[trigger] words[i]).len() > 0 by {
                assert(words[i] == cfg.command@[i]@);
            }
            assert(words_ok(words));
        }
        if words_ok(words) {
            assert forall|i: int| 0 <= i < cfg.command@.len() implies (#[trigger] cfg.command@[i])@.len() > 0 by {
                assert(words[i] == cfg.command@[i]@);
            }
        }
    }
    match cfg.validate() {
        Ok(()) => Ok(cfg),
        Err(e) => Err(e),
    }
}

/// Whether a predefined MCP server of this name exists.
pub fn has_mcp_definition(defs: &Vec<McpDefinition>, name: &str) -> (r: Option<usize>)
    ensures
        match r {
            Some(i) => i < defs@.len() && defs@[i as int].name@ == name@ && forall|k: int| 0 <= k < i ==> (#[trigger] defs@[k]).name@ != name@,
            None => forall|k: int| 0 <= k < defs@.len() ==> (#[trigger] defs@[k]).name@ != name@,
        },
{
    let mut i: usize = 0;
    while i < defs.len()
        invariant
            i <= defs@.len(),
            forall|k: int| 0 <= k < i ==> (#[trigger] defs@[k]).name@ != name@,
        decreases defs@.len() - i,
    {
        if str_eq(defs[i].name.as_str(), name) {
            return Some(i);
        }
        i = i + 1;
    }
    None
}

} // verus!
