//! Managed production host for plane intake: the fail-closed startup sequence.
//!
//! Hosts supply deployment intent, inspect the prepared metadata, and then run
//! the prepared host. Times are in nanoseconds unless their names say otherwise.
use vstd::prelude::*;
use vstd::string::*;

use crate::config::Config;
use crate::plane_intake::{ClaimedWorkPolicy, PlaneServeOptions, MILLISECOND, SECOND};
#[allow(unused_imports)]
use crate::plane_intake::{
    in_millis, serve_fault, DEFAULT_MAX_CLAIMED_TASK_BYTES, DEFAULT_MAX_CONTINUATION_BYTES,
};
use crate::text::{debug_quoted, is_blank, join_texts, same};
#[allow(unused_imports)]
use crate::text::{blank, debug_text, join, opt_view, texts};

verus! {

/// Operator intent for one managed plane-intake host.
#[derive(Debug, Clone)]
pub struct PlaneHostOptions {
    pub runtime_id: String,
    pub worker_id: Option<String>,
    pub poll_interval: u64,
    pub max_jobs: Option<u64>,
    pub claim_ttl: u64,
    pub checkpoint_store_id: Option<String>,
    pub lifecycle_listen: Option<String>,
}

impl Default for PlaneHostOptions {
    fn default() -> (o: Self)
        ensures
            o.runtime_id@ == "shikigami"@,
            o.worker_id is None,
            o.poll_interval == 200 * MILLISECOND,
            o.max_jobs is None,
            o.claim_ttl == 60 * SECOND,
            o.checkpoint_store_id is None,
            o.lifecycle_listen is None,
    {
        PlaneHostOptions {
            runtime_id: "shikigami".to_owned(),
            worker_id: None,
            poll_interval: 200 * MILLISECOND,
            max_jobs: None,
            claim_ttl: 60 * SECOND,
            checkpoint_store_id: None,
            lifecycle_listen: None,
        }
    }
}

/// Startup metadata available before the blocking intake loop begins.
#[derive(Debug, Clone, PartialEq, Eq)]
pub struct PlaneHostInfo {
    pub worker_id: String,
    pub runtime_id: String,
    pub namespace: String,
    pub lifecycle_path: String,
    pub lifecycle_addr: Option<String>,
}

/// Why a plane host does not start.
#[derive(Debug)]
pub enum PlaneHostError {
    WrongGovernanceAdapter { actual: String },
    InvalidOption { field: &'static str, message: String },
    DoctorFailed(String),
    /// Another layer's failure, as text.
    Governance(String),
    Lifecycle(String),
    Intake(String),
}

impl PlaneHostError {
    /// The message of the error.
    pub open spec fn text(self) -> Seq<char> {
        match self {
            PlaneHostError::WrongGovernanceAdapter { actual } => {
                "plane host requires governance.adapter = \"sekai-chisei\", got "@ + debug_text(
                    actual@,
                )
            },
            PlaneHostError::InvalidOption { field, message } => "invalid plane host option "@
                + field@ + ": "@ + message@,
            PlaneHostError::DoctorFailed(m) => "plane host doctor failed: "@ + m@,
            PlaneHostError::Governance(m) => m@,
            PlaneHostError::Lifecycle(m) => m@,
            PlaneHostError::Intake(m) => m@,
        }
    }

    /// The message of the error.
    pub fn message(&self) -> (s: String)
        ensures
            s@ == self.text(),
    {
        match self {
            PlaneHostError::WrongGovernanceAdapter { actual } => {
                let q = debug_quoted(actual.as_str());
                let mut s =
                    "plane host requires governance.adapter = \"sekai-chisei\", got ".to_owned();
                s.append(q.as_str());
                s
            },
            PlaneHostError::InvalidOption { field, message } => {
                let mut s = "invalid plane host option ".to_owned();
                s.append(field);
                s.append(": ");
                s.append(message.as_str());
                s
            },
            PlaneHostError::DoctorFailed(m) => {
                let mut s = "plane host doctor failed: ".to_owned();
                s.append(m.as_str());
                s
            },
            PlaneHostError::Governance(m) => m.clone(),
            PlaneHostError::Lifecycle(m) => m.clone(),
            PlaneHostError::Intake(m) => m.clone(),
        }
    }
}

/// What an address to listen on is.
#[derive(Debug, Clone, Copy, PartialEq, Eq, Structural)]
pub enum BindScope {
    Loopback,
    Unspecified,
    Other,
}

/// What the host knows of the address to listen on: its scope, or why it is no
/// address.
pub type Bind = Result<BindScope, String>;

/// Whether an error is about an option.
pub open spec fn option_error(e: PlaneHostError, field: Seq<char>, message: Seq<char>) -> bool {
    e matches PlaneHostError::InvalidOption { field: f, message: m } && f@ == field && m@ == message
}

/// Which option is wrong, and how.
pub open spec fn option_fault(options: PlaneHostOptions, bind: Option<Bind>) -> Option<
    (Seq<char>, Seq<char>),
> {
    if blank(options.runtime_id@) {
        Some(("runtime_id"@, "must not be empty"@))
    } else if options.claim_ttl < 3 * MILLISECOND {
        Some(
            (
                "claim_ttl"@,
                "must be at least 3 milliseconds so the derived heartbeat is positive"@,
            ),
        )
    } else if options.checkpoint_store_id is Some && blank(options.checkpoint_store_id->0@) {
        Some(("checkpoint_store_id"@, "must not be empty"@))
    } else {
        match bind {
            Some(Err(m)) => Some(("lifecycle_listen"@, "invalid socket address: "@ + m@)),
            Some(Ok(BindScope::Other)) => Some(
                ("lifecycle_listen"@, "must be loopback or unspecified (0.0.0.0/[::])"@),
            ),
            _ => None,
        }
    }
}

fn invalid(field: &'static str, message: &str) -> (e: PlaneHostError)
    ensures
        option_error(e, field@, message@),
{
    PlaneHostError::InvalidOption { field, message: message.to_owned() }
}

/// What is bound, where the address is one.
pub fn lifecycle_bind(bind: &Option<Bind>) -> (r: Result<Option<BindScope>, PlaneHostError>)
    ensures
        match *bind {
            None => r == Ok::<Option<BindScope>, PlaneHostError>(None),
            Some(Ok(s)) => r == Ok::<Option<BindScope>, PlaneHostError>(Some(s)),
            Some(Err(m)) => r matches Err(e) && option_error(
                e,
                "lifecycle_listen"@,
                "invalid socket address: "@ + m@,
            ),
        },
{
    match bind {
        None => Ok(None),
        Some(b) => match b {
            Ok(s) => Ok(Some(*s)),
            Err(m) => {
                let mut s = "invalid socket address: ".to_owned();
                s.append(m.as_str());
                Err(PlaneHostError::InvalidOption { field: "lifecycle_listen", message: s })
            },
        },
    }
}

/// Checks the operator's intent. `bind` is what the host knows of
/// `lifecycle_listen`, where that is set.
pub fn validate_options(config: &Config, options: &PlaneHostOptions, bind: &Option<Bind>) -> (r:
    Result<(), PlaneHostError>)
    ensures
        if config.governance.adapter@ != "sekai-chisei"@ {
            r matches Err(PlaneHostError::WrongGovernanceAdapter { actual }) && actual@
                == config.governance.adapter@
        } else {
            match option_fault(*options, *bind) {
                Some(f) => r matches Err(e) && option_error(e, f.0, f.1),
                None => r is Ok,
            }
        },
{
    if !same(config.governance.adapter.as_str(), "sekai-chisei") {
        return Err(
            PlaneHostError::WrongGovernanceAdapter { actual: config.governance.adapter.clone() },
        );
    }
    if is_blank(options.runtime_id.as_str()) {
        return Err(invalid("runtime_id", "must not be empty"));
    }
    if options.claim_ttl < 3 * MILLISECOND {
        return Err(
            invalid(
                "claim_ttl",
                "must be at least 3 milliseconds so the derived heartbeat is positive",
            ),
        );
    }
    if let Some(id) = &options.checkpoint_store_id {
        if is_blank(id.as_str()) {
            return Err(invalid("checkpoint_store_id", "must not be empty"));
        }
    }
    match lifecycle_bind(bind) {
        Err(e) => Err(e),
        Ok(Some(BindScope::Other)) => Err(
            invalid("lifecycle_listen", "must be loopback or unspecified (0.0.0.0/[::])"),
        ),
        Ok(_) => Ok(()),
    }
}

/// The worker id where none is given: the name of the host, where that is known.
pub open spec fn fallback_worker(
    hostname: Option<Seq<char>>,
    host: Option<Seq<char>>,
) -> Seq<char> {
    let name = if hostname is Some {
        hostname
    } else {
        host
    };
    if name is Some && !blank(name->0) {
        name->0
    } else {
        "shikigami-worker"@
    }
}

/// The worker id where none is given. `hostname` and `host` are the two
/// environment values that name the machine.
pub fn default_worker_id(hostname: Option<String>, host: Option<String>) -> (s: String)
    ensures
        s@ == fallback_worker(opt_view(hostname), opt_view(host)),
{
    let name = match hostname {
        Some(n) => Some(n),
        None => host,
    };
    match name {
        Some(n) => {
            if is_blank(n.as_str()) {
                "shikigami-worker".to_owned()
            } else {
                n
            }
        },
        None => "shikigami-worker".to_owned(),
    }
}

/// The worker id of a host.
pub fn worker_id(options: &PlaneHostOptions, fallback: String) -> (r: Result<
    String,
    PlaneHostError,
>)
    ensures
        ({
            let id = match options.worker_id {
                Some(w) => w@,
                None => fallback@,
            };
            if blank(id) {
                r matches Err(e) && option_error(e, "worker_id"@, "must not be empty"@)
            } else {
                r matches Ok(s) && s@ == id
            }
        }),
{
    let id = match &options.worker_id {
        Some(w) => w.clone(),
        None => fallback,
    };
    if is_blank(id.as_str()) {
        return Err(invalid("worker_id", "must not be empty"));
    }
    Ok(id)
}

/// Whether the doctor lets the host start.
pub fn doctor_gate(ok: bool, lines: &Vec<String>) -> (r: Result<(), PlaneHostError>)
    ensures
        if ok {
            r is Ok
        } else {
            r matches Err(PlaneHostError::DoctorFailed(m)) && m@ == join(texts(lines@), "; "@)
        },
{
    if !ok {
        return Err(PlaneHostError::DoctorFailed(join_texts(lines, "; ")));
    }
    Ok(())
}

/// Whether a loop serves the plane under the operator's intent: polling at least ten
/// milliseconds apart, renewing a lease three times within its life.
pub open spec fn serves(o: PlaneServeOptions, config: Config, host: PlaneHostOptions) -> bool {
    &&& o.poll_interval == if host.poll_interval < 10 * MILLISECOND {
        (10 * MILLISECOND) as u64
    } else {
        host.poll_interval
    }
    &&& o.max_jobs == host.max_jobs
    &&& o.claim_ttl == host.claim_ttl
    &&& o.heartbeat_interval == host.claim_ttl / 3
    &&& o.ack_retry_limit == 5
    &&& opt_view(o.checkpoint_store_id) == opt_view(host.checkpoint_store_id)
    &&& o.policy.expected_runtime@ == host.runtime_id@
    &&& o.policy.host_timeout_ms == (match config.run.timeout_secs {
        Some(s) => Some(in_millis(s)),
        None => None,
    })
    &&& o.policy.max_task_bytes == DEFAULT_MAX_CLAIMED_TASK_BYTES
    &&& o.policy.max_continuation_bytes == DEFAULT_MAX_CONTINUATION_BYTES
    &&& !o.policy.allow_keep_workspace
}

/// How the plane is served under the operator's intent.
pub fn serve_options(config: &Config, host: &PlaneHostOptions) -> (o: PlaneServeOptions)
    ensures
        serves(o, *config, *host),
{
    let mut policy = ClaimedWorkPolicy::default();
    policy.expected_runtime = host.runtime_id.clone();
    policy.host_timeout_ms = match config.run.timeout_secs {
        Some(s) => match s.checked_mul(1000) {
            Some(ms) => Some(ms),
            None => Some(u64::MAX),
        },
        None => None,
    };
    PlaneServeOptions {
        poll_interval: if host.poll_interval < 10 * MILLISECOND {
            10 * MILLISECOND
        } else {
            host.poll_interval
        },
        max_jobs: host.max_jobs,
        claim_ttl: host.claim_ttl,
        heartbeat_interval: host.claim_ttl / 3,
        ack_retry_limit: 5,
        checkpoint_store_id: match &host.checkpoint_store_id {
            Some(id) => Some(id.clone()),
            None => None,
        },
        policy,
    }
}

/// Options that pass their checks lead to a loop that can be served.
pub proof fn accepted_options_can_be_served(
    config: Config,
    options: PlaneHostOptions,
    bind: Option<Bind>,
    o: PlaneServeOptions,
)
    requires
        option_fault(options, bind) is None,
        serves(o, config, options),
    ensures
        serve_fault(o) is None,
{
}

// ---------------------------------------------------------------------------
// Startup
// ---------------------------------------------------------------------------

/// Where a host stands with its startup.
#[derive(Debug, Clone, Copy, PartialEq, Eq, Structural)]
pub enum StartStage {
    /// Remove the lifecycle snapshot of an earlier process.
    RemoveStale,
    /// Check the options.
    Validate,
    /// Publish a lifecycle that is not ready.
    OpenLifecycle,
    /// Build the claim client.
    Client,
    /// Ask the doctor.
    Doctor,
    /// Listen for lifecycle requests.
    Listen,
    /// The host may run.
    Prepared,
    /// Mark the published lifecycle unhealthy.
    MarkUnhealthy,
    /// Remove the published lifecycle.
    Withdraw,
    /// The host does not start.
    Failed,
}

/// Where a startup goes once a step succeeded or failed.
pub open spec fn start_after(stage: StartStage, ok: bool) -> StartStage {
    match stage {
        StartStage::RemoveStale => StartStage::Validate,
        StartStage::Validate => if ok {
            StartStage::OpenLifecycle
        } else {
            StartStage::Failed
        },
        StartStage::OpenLifecycle => if ok {
            StartStage::Client
        } else {
            StartStage::Failed
        },
        StartStage::Client => if ok {
            StartStage::Doctor
        } else {
            StartStage::MarkUnhealthy
        },
        StartStage::Doctor => if ok {
            StartStage::Listen
        } else {
            StartStage::MarkUnhealthy
        },
        StartStage::Listen => if ok {
            StartStage::Prepared
        } else {
            StartStage::MarkUnhealthy
        },
        StartStage::MarkUnhealthy => StartStage::Withdraw,
        StartStage::Withdraw => StartStage::Failed,
        last => last,
    }
}

/// Where a startup goes once a step succeeded or failed.
pub fn advance_start(stage: StartStage, ok: bool) -> (next: StartStage)
    ensures
        next == start_after(stage, ok),
{
    match stage {
        StartStage::RemoveStale => StartStage::Validate,
        StartStage::Validate => if ok {
            StartStage::OpenLifecycle
        } else {
            StartStage::Failed
        },
        StartStage::OpenLifecycle => if ok {
            StartStage::Client
        } else {
            StartStage::Failed
        },
        StartStage::Client => if ok {
            StartStage::Doctor
        } else {
            StartStage::MarkUnhealthy
        },
        StartStage::Doctor => if ok {
            StartStage::Listen
        } else {
            StartStage::MarkUnhealthy
        },
        StartStage::Listen => if ok {
            StartStage::Prepared
        } else {
            StartStage::MarkUnhealthy
        },
        StartStage::MarkUnhealthy => StartStage::Withdraw,
        StartStage::Withdraw => StartStage::Failed,
        last => last,
    }
}

/// The stage that a sequence of outcomes leads to.
pub open spec fn start_trace(oks: Seq<bool>) -> StartStage
    decreases oks.len(),
{
    if oks.len() == 0 {
        StartStage::RemoveStale
    } else {
        start_after(start_trace(oks.drop_last()), oks.last())
    }
}

spec fn start_depth(stage: StartStage) -> int {
    match stage {
        StartStage::RemoveStale => 0,
        StartStage::Validate => 1,
        StartStage::OpenLifecycle => 2,
        StartStage::Client => 3,
        StartStage::Doctor => 4,
        StartStage::Listen => 5,
        StartStage::Prepared => 6,
        _ => -1,
    }
}

proof fn start_facts(oks: Seq<bool>)
    ensures
        ({
            let d = start_depth(start_trace(oks));
            &&& 0 <= d < 6 ==> oks.len() == d
            &&& d == 6 ==> oks.len() >= 6
            &&& d >= 0 ==> forall|i: int| 1 <= i < oks.len() && i < 6 ==> #[trigger] oks[i]
        }),
    decreases oks.len(),
{
    if oks.len() > 0 {
        let before = oks.drop_last();
        start_facts(before);
        if start_depth(start_trace(oks)) >= 0 {
            assert forall|i: int| 1 <= i < oks.len() && i < 6 implies #[trigger] oks[i] by {
                if i < oks.len() - 1 {
                    assert(before[i]);
                }
            }
        }
    }
}

/// A host runs only once every gate of its startup was passed.
pub proof fn prepared_host_passed_every_gate(oks: Seq<bool>)
    requires
        start_trace(oks) == StartStage::Prepared,
    ensures
        oks.len() >= 6,
        forall|i: int| 1 <= i < 6 ==> #[trigger] oks[i],
{
    start_facts(oks);
}

/// Whether a lifecycle is published at a stage.
spec fn published(stage: StartStage) -> bool {
    stage == StartStage::Client || stage == StartStage::Doctor || stage == StartStage::Listen
        || stage == StartStage::MarkUnhealthy || stage == StartStage::Withdraw
}

/// A host that fails after it published its lifecycle withdraws it.
pub proof fn failed_host_withdraws_its_lifecycle(oks: Seq<bool>, k: int)
    requires
        0 <= k < oks.len(),
        start_trace(oks) == StartStage::Failed,
        start_trace(oks.take(k)) == StartStage::Client,
    ensures
        exists|j: int| k < j < oks.len() && start_trace(oks.take(j)) == StartStage::Withdraw,
{
    let j = withdrawal(oks, k);
    assert(start_trace(oks.take(j)) == StartStage::Withdraw);
}

proof fn withdrawal(oks: Seq<bool>, k: int) -> (j: int)
    requires
        0 <= k < oks.len(),
        start_trace(oks) == StartStage::Failed,
        published(start_trace(oks.take(k))),
        start_trace(oks.take(k)) != StartStage::Withdraw,
    ensures
        k < j < oks.len(),
        start_trace(oks.take(j)) == StartStage::Withdraw,
    decreases oks.len() - k,
{
    let next = oks.take(k + 1);
    assert(next.drop_last() =~= oks.take(k));
    assert(oks.take(oks.len() as int) =~= oks);
    let s = start_trace(next);
    if s == StartStage::Withdraw {
        k + 1
    } else if s == StartStage::Prepared {
        prepared_stays(oks, k + 1);
        k + 1
    } else {
        withdrawal(oks, k + 1)
    }
}

proof fn prepared_stays(oks: Seq<bool>, k: int)
    requires
        0 <= k <= oks.len(),
        start_trace(oks.take(k)) == StartStage::Prepared,
    ensures
        start_trace(oks) == StartStage::Prepared,
    decreases oks.len() - k,
{
    if k == oks.len() {
        assert(oks.take(k) =~= oks);
    } else {
        assert(oks.take(k + 1).drop_last() =~= oks.take(k));
        prepared_stays(oks, k + 1);
    }
}

/// Options are accepted just where the runtime, and a checkpoint store that is named, have a
/// name, a claim lasts at least three milliseconds, and the lifecycle endpoint, where there
/// is one, is an address of this host.
pub proof fn options_are_accepted_where_they_can_be_kept(
    options: PlaneHostOptions,
    bind: Option<Bind>,
)
    ensures
        option_fault(options, bind) is None <==> !blank(options.runtime_id@) && options.claim_ttl
            >= 3 * MILLISECOND && (options.checkpoint_store_id is Some ==> !blank(
            options.checkpoint_store_id->0@,
        )) && (bind is Some ==> bind->0 is Ok && bind->0->Ok_0 != BindScope::Other),
{
}

/// A worker without a name is called after its host, by the first name that is set, and where
/// that is blank by a fixed one.
pub proof fn worker_is_named_after_its_host(hostname: Option<Seq<char>>, host: Option<Seq<char>>)
    ensures
        hostname is Some && !blank(hostname->0) ==> fallback_worker(hostname, host) == hostname->0,
        hostname is None && host is Some && !blank(host->0) ==> fallback_worker(hostname, host)
            == host->0,
        hostname is Some && blank(hostname->0) ==> fallback_worker(hostname, host)
            == "shikigami-worker"@,
        hostname is None && host is None ==> fallback_worker(hostname, host)
            == "shikigami-worker"@,
{
}

/// Work is claimed for the time, and as often, as the host says, but not polled for more than
/// a hundred times a second. The lease is renewed three times in its life, a claimed run
/// lasts no longer than the configuration says, and no claim keeps its workspace.
pub proof fn served_work_keeps_to_the_host(
    o: PlaneServeOptions,
    config: Config,
    host: PlaneHostOptions,
)
    requires
        serves(o, config, host),
    ensures
        o.claim_ttl == host.claim_ttl,
        o.max_jobs == host.max_jobs,
        3 * o.heartbeat_interval <= o.claim_ttl < 3 * (o.heartbeat_interval + 1),
        o.poll_interval >= 10 * MILLISECOND,
        host.poll_interval >= 10 * MILLISECOND ==> o.poll_interval == host.poll_interval,
        o.policy.expected_runtime@ == host.runtime_id@,
        o.policy.host_timeout_ms is Some <==> config.run.timeout_secs is Some,
        config.run.timeout_secs is Some && config.run.timeout_secs->0 * 1000 <= u64::MAX
            ==> o.policy.host_timeout_ms->0 == config.run.timeout_secs->0 * 1000,
        !o.policy.allow_keep_workspace,
        o.checkpoint_store_id is Some <==> host.checkpoint_store_id is Some,
        o.checkpoint_store_id is Some ==> o.checkpoint_store_id->0@
            == host.checkpoint_store_id->0@,
{
}

/// A host that starts removes what is stale, validates, opens its lifecycle, connects, is
/// examined and listens, in this order, and is prepared then.
pub proof fn host_starts_step_by_step(oks: Seq<bool>)
    requires
        oks.len() == 6,
        forall|i: int| 1 <= i < 6 ==> #[trigger] oks[i],
    ensures
        start_trace(oks.take(0)) == StartStage::RemoveStale,
        start_trace(oks.take(1)) == StartStage::Validate,
        start_trace(oks.take(2)) == StartStage::OpenLifecycle,
        start_trace(oks.take(3)) == StartStage::Client,
        start_trace(oks.take(4)) == StartStage::Doctor,
        start_trace(oks.take(5)) == StartStage::Listen,
        start_trace(oks) == StartStage::Prepared,
{
    assert(oks.take(1).drop_last() =~= oks.take(0));
    assert(oks.take(2).drop_last() =~= oks.take(1));
    assert(oks.take(3).drop_last() =~= oks.take(2));
    assert(oks.take(4).drop_last() =~= oks.take(3));
    assert(oks.take(5).drop_last() =~= oks.take(4));
    assert(oks.drop_last() =~= oks.take(5));
    assert(start_trace(oks.take(0)) == StartStage::RemoveStale);
    assert(oks[1] && oks[2] && oks[3] && oks[4] && oks[5]);
}

/// A start that fails before its lifecycle is open just fails; one that fails later is marked
/// unhealthy and withdrawn first.
pub proof fn failed_start_is_withdrawn(oks: Seq<bool>, a: bool, b: bool)
    ensures
        start_trace(oks) == StartStage::Validate || start_trace(oks) == StartStage::OpenLifecycle
            ==> start_trace(oks.push(false)) == StartStage::Failed,
        start_trace(oks) == StartStage::Client || start_trace(oks) == StartStage::Doctor
            || start_trace(oks) == StartStage::Listen ==> start_trace(oks.push(false))
            == StartStage::MarkUnhealthy && start_trace(oks.push(false).push(a))
            == StartStage::Withdraw && start_trace(oks.push(false).push(a).push(b))
            == StartStage::Failed,
{
    assert(oks.push(false).drop_last() =~= oks);
    assert(oks.push(false).push(a).drop_last() =~= oks.push(false));
    assert(oks.push(false).push(a).push(b).drop_last() =~= oks.push(false).push(a));
}

} // verus!
