//! Local-queue daemon host: queue layout, options and errors.
//!
//! The queue lies in a directory; reading and moving its files is the host's
//! work.
use vstd::prelude::*;
use vstd::string::*;

use crate::config::Config;
use crate::model::labelled;
use crate::registry::RegistryError;
use crate::run::resume::join_path;
#[allow(unused_imports)]
use crate::run::resume::joined;
use crate::text::same;

pub mod control;
pub mod queue;
pub mod serve_loop;

verus! {

/// Job file dropped into the inbox for the daemon.
#[derive(Debug, Clone, PartialEq, Eq)]
pub struct QueueJob {
    /// Optional caller correlation id. It is not used as a filesystem path.
    pub job_id: Option<String>,
    /// Human task text for the harness run.
    pub task: String,
    /// Higher values run first within the local queue.
    pub priority: i32,
    /// Number of local attempts already made.
    pub attempt: u32,
    pub keep_workspace: bool,
    pub logical_operation_id: Option<String>,
    pub timeout_secs: Option<u64>,
}

/// What became of a job.
#[derive(Debug, Clone, PartialEq, Eq)]
pub struct QueueResult {
    pub job_path: String,
    pub job_id: Option<String>,
    pub attempt: u32,
    pub run_id: String,
    pub success: bool,
    pub termination: String,
    pub summary: String,
    pub turns: u32,
    pub artifact_dir: Option<String>,
}

/// Why the daemon refuses or fails.
#[derive(Debug)]
pub enum ServeError {
    /// A harness failure, as text.
    Harness(String),
    Io(String),
    Registry(RegistryError),
    Json(String),
    Job { path: String, source: String },
    Message(String),
}

impl ServeError {
    /// The message of the error.
    pub open spec fn text(self) -> Seq<char> {
        match self {
            ServeError::Harness(m) => m@,
            ServeError::Io(m) => "serve I/O: "@ + m@,
            ServeError::Registry(e) => e.text(),
            ServeError::Json(m) => m@,
            ServeError::Job { path, source } => "invalid job "@ + path@ + ": "@ + source@,
            ServeError::Message(m) => "serve: "@ + m@,
        }
    }

    /// The message of the error.
    pub fn message(&self) -> (s: String)
        ensures
            s@ == self.text(),
    {
        match self {
            ServeError::Harness(m) => m.clone(),
            ServeError::Io(m) => labelled("serve I/O: ", m),
            ServeError::Registry(e) => e.message(),
            ServeError::Json(m) => m.clone(),
            ServeError::Job { path, source } => {
                let mut s = labelled("invalid job ", path);
                s.append(": ");
                s.append(source.as_str());
                s
            },
            ServeError::Message(m) => labelled("serve: ", m),
        }
    }
}

/// Whether an error is a message of the daemon.
pub open spec fn serve_message(e: ServeError, text: Seq<char>) -> bool {
    e matches ServeError::Message(m) && m@ == text
}

pub(crate) fn refuse(text: &str) -> (e: ServeError)
    ensures
        serve_message(e, text@),
{
    ServeError::Message(text.to_owned())
}

/// Layout under the state root for the local queue.
#[derive(Debug, Clone)]
pub struct QueueLayout {
    pub root: String,
    pub inbox: String,
    pub processing: String,
    pub done: String,
    pub failed: String,
    pub health: String,
}

impl QueueLayout {
    /// The layout under a state root.
    pub fn under_state(state_root: &str) -> (l: Self)
        ensures
            l.root@ == joined(state_root@, "queue"@),
            l.inbox@ == joined(l.root@, "inbox"@),
            l.processing@ == joined(l.root@, "processing"@),
            l.done@ == joined(l.root@, "done"@),
            l.failed@ == joined(l.root@, "failed"@),
            l.health@ == joined(l.root@, "health.json"@),
    {
        let root = join_path(state_root, "queue");
        QueueLayout {
            inbox: join_path(root.as_str(), "inbox"),
            processing: join_path(root.as_str(), "processing"),
            done: join_path(root.as_str(), "done"),
            failed: join_path(root.as_str(), "failed"),
            health: join_path(root.as_str(), "health.json"),
            root,
        }
    }
}

/// What the daemon says of itself.
#[derive(Debug, Clone, PartialEq, Eq)]
pub struct HealthStatus {
    pub ok: bool,
    pub product: String,
    pub version: String,
    pub queue_inbox: usize,
    pub running: bool,
    pub last_run_id: Option<String>,
    pub running_jobs: usize,
    pub queue_capacity: usize,
    pub queue_over_capacity: bool,
}

/// How the queue is polled.
#[derive(Debug, Clone, Copy)]
pub struct ServeOptions {
    pub poll_interval_ms: u64,
    pub max_jobs: Option<u64>,
}

impl Default for ServeOptions {
    fn default() -> (o: Self)
        ensures
            o.poll_interval_ms == 200,
            o.max_jobs is None,
    {
        ServeOptions { poll_interval_ms: 200, max_jobs: None }
    }
}

/// How jobs are run.
#[derive(Debug, Clone, Copy)]
pub struct ServeRuntimeOptions {
    pub concurrency: usize,
    /// Maximum number of queued and processing jobs that intake accepts.
    pub queue_capacity: usize,
    /// Number of local retries after a harness error.
    pub retry_limit: u32,
}

impl Default for ServeRuntimeOptions {
    fn default() -> (o: Self)
        ensures
            o.concurrency == 1,
            o.queue_capacity == 256,
            o.retry_limit == 0,
    {
        ServeRuntimeOptions { concurrency: 1, queue_capacity: 256, retry_limit: 0 }
    }
}

/// How the control endpoint is served.
#[derive(Debug, Clone)]
pub struct ControlOptions {
    /// The socket address to listen on.
    pub bind: String,
    pub auth_token: Option<String>,
    pub queue_capacity: usize,
    pub max_body_bytes: usize,
}

impl Default for ControlOptions {
    fn default() -> (o: Self)
        ensures
            o.bind@ == "127.0.0.1:0"@,
            o.auth_token is None,
            o.queue_capacity == 256,
            o.max_body_bytes == 262144,
    {
        ControlOptions {
            bind: "127.0.0.1:0".to_owned(),
            auth_token: None,
            queue_capacity: 256,
            max_body_bytes: 262144,
        }
    }
}

/// At least one.
pub open spec fn at_least_one(n: usize) -> usize {
    if n == 0 {
        1
    } else {
        n
    }
}

/// Whether the configured workspace is shared by all runs.
pub open spec fn shares_workspace(config: Config) -> bool {
    config.workspace.adapter@ == "inplace"@ || config.workspace.adapter@ == "directory-inplace"@
}

/// Why jobs cannot be served with the options.
pub open spec fn runtime_fault(
    config: Config,
    runtime: ServeRuntimeOptions,
    control: Option<ControlOptions>,
) -> Option<Seq<char>> {
    if at_least_one(runtime.concurrency) > 1 && shares_workspace(config) {
        Some("serve concurrency must be 1 with the inplace workspace adapter"@)
    } else {
        match control {
            Some(c) => control::options_fault(c, at_least_one(runtime.queue_capacity)),
            None => None,
        }
    }
}

/// The options that jobs are served with: at least one job at a time and room
/// for at least one. Runs that share a workspace are served one at a time.
pub fn runtime_options(
    config: &Config,
    runtime: ServeRuntimeOptions,
    control: Option<&ControlOptions>,
) -> (r: Result<ServeRuntimeOptions, ServeError>)
    ensures
        match runtime_fault(*config, runtime, (match control {
            Some(c) => Some(*c),
            None => None,
        })) {
            Some(m) => r matches Err(e) && serve_message(e, m),
            None => r == Ok::<ServeRuntimeOptions, ServeError>(
                ServeRuntimeOptions {
                    concurrency: at_least_one(runtime.concurrency),
                    queue_capacity: at_least_one(runtime.queue_capacity),
                    retry_limit: runtime.retry_limit,
                },
            ),
        },
{
    let concurrency: usize = if runtime.concurrency == 0 {
        1
    } else {
        runtime.concurrency
    };
    let queue_capacity: usize = if runtime.queue_capacity == 0 {
        1
    } else {
        runtime.queue_capacity
    };
    let adapter = config.workspace.adapter.as_str();
    if concurrency > 1 && (same(adapter, "inplace") || same(adapter, "directory-inplace")) {
        return Err(refuse("serve concurrency must be 1 with the inplace workspace adapter"));
    }
    if let Some(c) = control {
        if let Err(e) = control::validate_options(c, queue_capacity) {
            return Err(e);
        }
    }
    Ok(ServeRuntimeOptions { concurrency, queue_capacity, retry_limit: runtime.retry_limit })
}

/// Serving starts just where jobs that share one workspace do not run side by side and the
/// control endpoint, where there is one, can be served.
pub proof fn serving_starts_where_it_is_safe(
    config: Config,
    runtime: ServeRuntimeOptions,
    control: Option<ControlOptions>,
)
    ensures
        runtime_fault(config, runtime, control) is None <==> (runtime.concurrency <= 1 || (
        config.workspace.adapter@ != "inplace"@ && config.workspace.adapter@
            != "directory-inplace"@)) && (control is Some ==> control::options_fault(
            control->0,
            at_least_one(runtime.queue_capacity),
        ) is None),
{
}

} // verus!
