//! Settings that the runtime reads.
use vstd::prelude::*;

verus! {

/// How tool children are isolated.
#[derive(Debug, Clone, Copy, PartialEq, Eq, Structural)]
pub enum SandboxBackend {
    /// No isolation, `none` in the configuration.
    Disabled,
    Rlimit,
    LinuxNative,
}

/// The sandbox section of the configuration.
#[derive(Debug, Clone)]
pub struct SandboxSettings {
    pub backend: SandboxBackend,
    pub cpu_time_secs: Option<u64>,
    pub memory_mb: Option<u64>,
    pub user_processes: Option<u64>,
    pub file_size_mb: Option<u64>,
    pub open_files: Option<u64>,
    pub read_only_paths: Vec<String>,
}

impl Default for SandboxSettings {
    fn default() -> (s: Self)
        ensures
            s.backend == SandboxBackend::Disabled,
            s.cpu_time_secs is None,
            s.memory_mb is None,
            s.user_processes is None,
            s.file_size_mb is None,
            s.open_files is None,
            s.read_only_paths@.len() == 0,
    {
        SandboxSettings {
            backend: SandboxBackend::Disabled,
            cpu_time_secs: None,
            memory_mb: None,
            user_processes: None,
            file_size_mb: None,
            open_files: None,
            read_only_paths: Vec::new(),
        }
    }
}

/// The model section of the configuration.
#[derive(Debug, Clone)]
pub struct ModelSettings {
    pub adapter: String,
    /// The effective model name.
    pub model: String,
    pub base_url: Option<String>,
    pub script_json: Option<String>,
}

/// The governance section of the configuration.
#[derive(Debug, Clone)]
pub struct GovernanceSettings {
    pub adapter: String,
    pub fail_closed: bool,
    /// Runs must be governed by the plane.
    pub required: bool,
}

/// The run section of the configuration.
#[derive(Debug, Clone)]
pub struct RunSettings {
    pub max_turns: u32,
    pub timeout_secs: Option<u64>,
    pub tool_concurrency: u32,
    pub compact_after_messages: Option<u32>,
    pub compact_keep_tail: u32,
}

/// How frames of an MCP stdio stream are delimited.
#[derive(Debug, Clone, Copy, PartialEq, Eq, Structural)]
pub enum McpFraming {
    ContentLength,
    Newline,
}

/// One MCP server of the configuration.
#[derive(Debug, Clone)]
pub struct McpServerSettings {
    pub name: String,
    pub command: String,
    pub args: Vec<String>,
    pub transport: String,
    pub url: Option<String>,
    pub token_env: Option<String>,
    pub framing: McpFraming,
    pub timeout_secs: u64,
}

/// The tool section of the configuration.
#[derive(Debug, Clone)]
pub struct ToolSettings {
    pub mode: String,
    pub enabled: Vec<String>,
    pub respect_ignore: bool,
    pub mcp_servers: Vec<McpServerSettings>,
}

/// The workspace section of the configuration.
#[derive(Debug, Clone)]
pub struct WorkspaceSettings {
    pub adapter: String,
    pub root: String,
    pub snapshot: bool,
}

/// Which hosts tools may reach.
#[derive(Debug, Clone, Copy, PartialEq, Eq, Structural)]
pub enum EgressMode {
    Deny,
    Allowlist,
    Allow,
}

/// The network section of the configuration.
#[derive(Debug, Clone)]
pub struct NetworkSettings {
    pub egress: EgressMode,
    pub allow_hosts: Vec<String>,
}

/// One hook of the configuration.
#[derive(Debug, Clone)]
pub struct HookSettings {
    pub event: String,
    pub command: String,
}

/// The context section of the configuration.
#[derive(Debug, Clone)]
pub struct ContextSettings {
    pub skills: Vec<String>,
    pub skills_root: Option<String>,
}

/// The configuration of a harness.
#[derive(Debug, Clone)]
pub struct Config {
    pub profile: String,
    pub governance: GovernanceSettings,
    pub model: ModelSettings,
    pub run: RunSettings,
    pub tools: ToolSettings,
    pub workspace: WorkspaceSettings,
    pub network: NetworkSettings,
    pub hooks: Vec<HookSettings>,
    pub context: ContextSettings,
}

impl Default for Config {
    /// A configuration that names nothing: empty texts and lists, no limits
    /// and no egress.
    fn default() -> (c: Self)
        ensures
            c.profile@.len() == 0,
            c.governance.adapter@.len() == 0,
            !c.governance.fail_closed,
            !c.governance.required,
            c.model.adapter@.len() == 0,
            c.model.model@.len() == 0,
            c.model.base_url is None,
            c.model.script_json is None,
            c.run == (RunSettings {
                max_turns: 0,
                timeout_secs: None,
                tool_concurrency: 1,
                compact_after_messages: None,
                compact_keep_tail: 0,
            }),
            c.tools.mode@.len() == 0,
            c.tools.enabled@.len() == 0,
            !c.tools.respect_ignore,
            c.tools.mcp_servers@.len() == 0,
            c.workspace.adapter@.len() == 0,
            c.workspace.root@.len() == 0,
            !c.workspace.snapshot,
            c.network.egress == EgressMode::Deny,
            c.network.allow_hosts@.len() == 0,
            c.hooks@.len() == 0,
            c.context.skills@.len() == 0,
            c.context.skills_root is None,
    {
        Config {
            profile: String::new(),
            governance: GovernanceSettings {
                adapter: String::new(),
                fail_closed: false,
                required: false,
            },
            model: ModelSettings {
                adapter: String::new(),
                model: String::new(),
                base_url: None,
                script_json: None,
            },
            run: RunSettings {
                max_turns: 0,
                timeout_secs: None,
                tool_concurrency: 1,
                compact_after_messages: None,
                compact_keep_tail: 0,
            },
            tools: ToolSettings {
                mode: String::new(),
                enabled: Vec::new(),
                respect_ignore: false,
                mcp_servers: Vec::new(),
            },
            workspace: WorkspaceSettings {
                adapter: String::new(),
                root: String::new(),
                snapshot: false,
            },
            network: NetworkSettings { egress: EgressMode::Deny, allow_hosts: Vec::new() },
            hooks: Vec::new(),
            context: ContextSettings { skills: Vec::new(), skills_root: None },
        }
    }
}

} // verus!
