//! Optional process metrics.
//!
//! Each process keeps cumulative counters in a file of its own; the files of
//! processes that are gone are folded into one aggregate.
use vstd::prelude::*;
use vstd::string::*;

use crate::events::push_number;
use crate::text::{same, trimmed};
#[allow(unused_imports)]
use crate::text::{
    contains, decimal, occurs_at, text_holds_what_is_added, text_keeps_what_it_holds, trim,
};

verus! {

/// Cumulative counters for fleet operators.
#[derive(Debug)]
pub struct Metrics {
    pub runs_total: u64,
    pub runs_success: u64,
    pub runs_failed: u64,
    pub runs_parked: u64,
    pub turns_total: u64,
    pub plane_errors: u64,
    pub tokens_input_total: u64,
    pub tokens_output_total: u64,
}

/// Metrics export.
#[derive(Debug, Clone, Copy, PartialEq, Eq, Structural)]
pub struct MetricsSnapshot {
    pub runs_total: u64,
    pub runs_success: u64,
    pub runs_failed: u64,
    pub runs_parked: u64,
    pub turns_total: u64,
    pub plane_errors: u64,
    pub tokens_input_total: u64,
    pub tokens_output_total: u64,
}

/// The snapshot of nothing.
pub open spec fn zero_snapshot() -> MetricsSnapshot {
    MetricsSnapshot {
        runs_total: 0,
        runs_success: 0,
        runs_failed: 0,
        runs_parked: 0,
        turns_total: 0,
        plane_errors: 0,
        tokens_input_total: 0,
        tokens_output_total: 0,
    }
}

impl Default for MetricsSnapshot {
    fn default() -> (s: Self)
        ensures
            s == zero_snapshot(),
    {
        MetricsSnapshot {
            runs_total: 0,
            runs_success: 0,
            runs_failed: 0,
            runs_parked: 0,
            turns_total: 0,
            plane_errors: 0,
            tokens_input_total: 0,
            tokens_output_total: 0,
        }
    }
}

/// A counter that wraps round at its end.
pub open spec fn wrapped(a: u64, b: u64) -> u64 {
    if a + b > u64::MAX {
        (a + b - 0x1_0000_0000_0000_0000) as u64
    } else {
        (a + b) as u64
    }
}

impl Metrics {
    /// What the counters hold.
    pub open spec fn counts(self) -> MetricsSnapshot {
        MetricsSnapshot {
            runs_total: self.runs_total,
            runs_success: self.runs_success,
            runs_failed: self.runs_failed,
            runs_parked: self.runs_parked,
            turns_total: self.turns_total,
            plane_errors: self.plane_errors,
            tokens_input_total: self.tokens_input_total,
            tokens_output_total: self.tokens_output_total,
        }
    }

    /// Counters at zero.
    pub fn new() -> (m: Self)
        ensures
            m.counts() == zero_snapshot(),
    {
        Metrics {
            runs_total: 0,
            runs_success: 0,
            runs_failed: 0,
            runs_parked: 0,
            turns_total: 0,
            plane_errors: 0,
            tokens_input_total: 0,
            tokens_output_total: 0,
        }
    }

    /// Counts one run: it is parked, successful or failed, in that order.
    pub fn record_run(
        &mut self,
        success: bool,
        parked: bool,
        turns: u32,
        input_tokens: u64,
        output_tokens: u64,
    )
        ensures
            final(self).counts() == counted(
                old(self).counts(),
                success,
                parked,
                turns,
                input_tokens,
                output_tokens,
            ),
    {
        self.runs_total = self.runs_total.wrapping_add(1);
        self.turns_total = self.turns_total.wrapping_add(turns as u64);
        self.tokens_input_total = self.tokens_input_total.wrapping_add(input_tokens);
        self.tokens_output_total = self.tokens_output_total.wrapping_add(output_tokens);
        if parked {
            self.runs_parked = self.runs_parked.wrapping_add(1);
        } else if success {
            self.runs_success = self.runs_success.wrapping_add(1);
        } else {
            self.runs_failed = self.runs_failed.wrapping_add(1);
        }
    }

    /// Counts one plane error.
    pub fn record_plane_error(&mut self)
        ensures
            final(self).counts() == (MetricsSnapshot {
                plane_errors: wrapped(old(self).plane_errors, 1),
                ..old(self).counts()
            }),
    {
        self.plane_errors = self.plane_errors.wrapping_add(1);
    }

    /// What the counters hold.
    pub fn snapshot(&self) -> (s: MetricsSnapshot)
        ensures
            s == self.counts(),
    {
        MetricsSnapshot {
            runs_total: self.runs_total,
            runs_success: self.runs_success,
            runs_failed: self.runs_failed,
            runs_parked: self.runs_parked,
            turns_total: self.turns_total,
            plane_errors: self.plane_errors,
            tokens_input_total: self.tokens_input_total,
            tokens_output_total: self.tokens_output_total,
        }
    }
}

/// The counters once one more run is counted.
pub open spec fn counted(
    s: MetricsSnapshot,
    success: bool,
    parked: bool,
    turns: u32,
    input_tokens: u64,
    output_tokens: u64,
) -> MetricsSnapshot {
    MetricsSnapshot {
        runs_total: wrapped(s.runs_total, 1),
        runs_parked: if parked {
            wrapped(s.runs_parked, 1)
        } else {
            s.runs_parked
        },
        runs_success: if !parked && success {
            wrapped(s.runs_success, 1)
        } else {
            s.runs_success
        },
        runs_failed: if !parked && !success {
            wrapped(s.runs_failed, 1)
        } else {
            s.runs_failed
        },
        turns_total: wrapped(s.turns_total, turns as u64),
        tokens_input_total: wrapped(s.tokens_input_total, input_tokens),
        tokens_output_total: wrapped(s.tokens_output_total, output_tokens),
        plane_errors: s.plane_errors,
    }
}

/// Every run is counted under exactly one outcome: counting keeps the sum of the
/// outcomes at the number of runs.
pub proof fn outcomes_add_up(
    s: MetricsSnapshot,
    success: bool,
    parked: bool,
    turns: u32,
    input_tokens: u64,
    output_tokens: u64,
)
    requires
        s.runs_total < u64::MAX,
        s.runs_total == s.runs_success + s.runs_failed + s.runs_parked,
    ensures
        ({
            let n = counted(s, success, parked, turns, input_tokens, output_tokens);
            n.runs_total == n.runs_success + n.runs_failed + n.runs_parked
        }),
{
}

/// A sum, at most the largest counter.
pub open spec fn capped(n: int) -> u64 {
    if n > u64::MAX {
        u64::MAX
    } else {
        n as u64
    }
}

/// The sum of two snapshots, counter by counter.
pub open spec fn summed(a: MetricsSnapshot, b: MetricsSnapshot) -> MetricsSnapshot {
    MetricsSnapshot {
        runs_total: capped(a.runs_total + b.runs_total),
        runs_success: capped(a.runs_success + b.runs_success),
        runs_failed: capped(a.runs_failed + b.runs_failed),
        runs_parked: capped(a.runs_parked + b.runs_parked),
        turns_total: capped(a.turns_total + b.turns_total),
        plane_errors: capped(a.plane_errors + b.plane_errors),
        tokens_input_total: capped(a.tokens_input_total + b.tokens_input_total),
        tokens_output_total: capped(a.tokens_output_total + b.tokens_output_total),
    }
}

fn capped_sum(a: u64, b: u64) -> (n: u64)
    ensures
        n == capped(a + b),
{
    match a.checked_add(b) {
        Some(n) => n,
        None => u64::MAX,
    }
}

impl MetricsSnapshot {
    /// Adds another snapshot, counter by counter, up to the largest counter.
    pub fn add_assign(&mut self, other: &MetricsSnapshot)
        ensures
            *final(self) == summed(*old(self), *other),
    {
        self.runs_total = capped_sum(self.runs_total, other.runs_total);
        self.runs_success = capped_sum(self.runs_success, other.runs_success);
        self.runs_failed = capped_sum(self.runs_failed, other.runs_failed);
        self.runs_parked = capped_sum(self.runs_parked, other.runs_parked);
        self.turns_total = capped_sum(self.turns_total, other.turns_total);
        self.plane_errors = capped_sum(self.plane_errors, other.plane_errors);
        self.tokens_input_total = capped_sum(self.tokens_input_total, other.tokens_input_total);
        self.tokens_output_total = capped_sum(self.tokens_output_total, other.tokens_output_total);
    }
}

/// Snapshots may be added in any grouping and in any order.
pub proof fn sums_regroup(a: MetricsSnapshot, b: MetricsSnapshot, c: MetricsSnapshot)
    ensures
        summed(summed(a, b), c) == summed(a, summed(b, c)),
        summed(a, b) == summed(b, a),
        summed(a, zero_snapshot()) == a,
{
}

/// The snapshot file of one process.
#[derive(Debug, Clone)]
pub struct PersistedMetrics {
    pub schema_version: u32,
    pub process_id: u32,
    pub process_identity: String,
    pub updated_at_ms: u64,
    pub snapshot: MetricsSnapshot,
}

impl PersistedMetrics {
    /// The aggregate of processes that are gone: it belongs to no process.
    pub fn from_snapshot(snapshot: &MetricsSnapshot, now_ms: u64) -> (p: Self)
        ensures
            p.schema_version == 1,
            p.process_id == 0,
            p.process_identity@.len() == 0,
            p.updated_at_ms == now_ms,
            p.snapshot == *snapshot,
    {
        PersistedMetrics {
            schema_version: 1,
            process_id: 0,
            process_identity: String::new(),
            updated_at_ms: now_ms,
            snapshot: *snapshot,
        }
    }
}

/// Whether the process of a snapshot still runs. `current_identity` is what the
/// identity file of its process id holds now, and `answers` whether a process
/// with that id is there.
pub open spec fn alive(p: PersistedMetrics, current_identity: Option<&str>, answers: bool) -> bool {
    &&& p.process_id != 0
    &&& !(p.process_identity@.len() > 0 && current_identity is Some && trim(current_identity->0@)
        != p.process_identity@)
    &&& answers
}

/// Whether the process of a snapshot still runs. A reused process id is told by
/// its identity.
pub fn process_is_alive(p: &PersistedMetrics, current_identity: Option<&str>, answers: bool) -> (r:
    bool)
    ensures
        r == alive(*p, current_identity, answers),
{
    if p.process_id == 0 {
        return false;
    }
    if !p.process_identity.as_str().is_empty() {
        if let Some(current) = current_identity {
            let shown = trimmed(current);
            if !same(shown.as_str(), p.process_identity.as_str()) {
                return false;
            }
        }
    }
    answers
}

/// One snapshot file, with what is known of its process.
#[derive(Debug, Clone, Copy, PartialEq, Eq, Structural)]
pub struct ProcessSnapshot {
    pub snapshot: MetricsSnapshot,
    pub alive: bool,
}

/// What an aggregation came to.
#[derive(Debug)]
pub struct Aggregate {
    pub total: MetricsSnapshot,
    /// The new aggregate of gone processes, where some file was folded into it.
    pub retired: Option<MetricsSnapshot>,
    /// The files that were folded and are to be removed.
    pub folded: Vec<usize>,
}

/// The sum of the first `n` snapshots on top of `base`.
pub open spec fn sum_all(base: MetricsSnapshot, v: Seq<ProcessSnapshot>, n: int) -> MetricsSnapshot
    decreases n,
{
    if n <= 0 || n > v.len() {
        base
    } else {
        summed(sum_all(base, v, n - 1), v[n - 1].snapshot)
    }
}

/// The sum of those of the first `n` snapshots whose process is gone, or is
/// alive, on top of `base`.
pub open spec fn sum_where(
    base: MetricsSnapshot,
    v: Seq<ProcessSnapshot>,
    alive: bool,
    n: int,
) -> MetricsSnapshot
    decreases n,
{
    if n <= 0 || n > v.len() {
        base
    } else if v[n - 1].alive == alive {
        summed(sum_where(base, v, alive, n - 1), v[n - 1].snapshot)
    } else {
        sum_where(base, v, alive, n - 1)
    }
}

/// The indices of those of the first `n` snapshots whose process is gone.
pub open spec fn gone_before(v: Seq<ProcessSnapshot>, n: int) -> Seq<int>
    decreases n,
{
    if n <= 0 || n > v.len() {
        Seq::empty()
    } else if !v[n - 1].alive {
        gone_before(v, n - 1).push(n - 1)
    } else {
        gone_before(v, n - 1)
    }
}

pub open spec fn indices(v: Seq<usize>) -> Seq<int> {
    Seq::new(v.len(), |i: int| v[i] as int)
}

impl Metrics {
    /// The total over the retired aggregate and all snapshot files. With the
    /// aggregate lock held, the files of gone processes are folded into the
    /// aggregate.
    pub fn aggregate(
        retired: Option<MetricsSnapshot>,
        files: &Vec<ProcessSnapshot>,
        locked: bool,
    ) -> (r: Aggregate)
        ensures
            ({
                let base = match retired {
                    Some(s) => s,
                    None => zero_snapshot(),
                };
                let gone = gone_before(files@, files@.len() as int);
                &&& r.total == sum_all(base, files@, files@.len() as int)
                &&& if locked && gone.len() > 0 {
                    r.retired == Some(sum_where(base, files@, false, files@.len() as int))
                        && indices(r.folded@) == gone
                } else {
                    r.retired is None && r.folded@.len() == 0
                }
            }),
    {
        let mut base: MetricsSnapshot = MetricsSnapshot::default();
        if let Some(s) = retired {
            base = s;
        }
        let mut total: MetricsSnapshot = base;
        let mut kept: MetricsSnapshot = base;
        let mut folded: Vec<usize> = Vec::new();
        let mut i: usize = 0;
        assert(indices(folded@) =~= gone_before(files@, 0));
        while i < files.len()
            invariant
                i <= files@.len(),
                total == sum_all(base, files@, i as int),
                kept == sum_where(base, files@, false, i as int),
                indices(folded@) == gone_before(files@, i as int),
            decreases files@.len() - i,
        {
            let file = files[i];
            total.add_assign(&file.snapshot);
            let ghost before = folded@;
            if !file.alive {
                kept.add_assign(&file.snapshot);
                folded.push(i);
                assert(indices(folded@) =~= indices(before).push(i as int));
            }
            i = i + 1;
        }
        if locked && folded.len() > 0 {
            Aggregate { total, retired: Some(kept), folded }
        } else {
            Aggregate { total, retired: None, folded: Vec::new() }
        }
    }

    /// The aggregate once this process folds its own counters in on its way out.
    pub fn retire(&self, aggregate: Option<MetricsSnapshot>) -> (total: MetricsSnapshot)
        ensures
            total == summed(
                match aggregate {
                    Some(s) => s,
                    None => zero_snapshot(),
                },
                self.counts(),
            ),
    {
        let mut total: MetricsSnapshot = MetricsSnapshot::default();
        if let Some(s) = aggregate {
            total = s;
        }
        total.add_assign(&self.snapshot());
        total
    }
}

/// The files that stay once those of gone processes are folded.
pub open spec fn staying(v: Seq<ProcessSnapshot>, n: int) -> Seq<ProcessSnapshot>
    decreases n,
{
    if n <= 0 || n > v.len() {
        Seq::empty()
    } else if v[n - 1].alive {
        staying(v, n - 1).push(v[n - 1])
    } else {
        staying(v, n - 1)
    }
}

proof fn sum_take(base: MetricsSnapshot, v: Seq<ProcessSnapshot>, x: ProcessSnapshot, n: int)
    requires
        0 <= n <= v.len(),
    ensures
        sum_all(base, v.push(x), n) == sum_all(base, v, n),
    decreases n,
{
    if n > 0 {
        sum_take(base, v, x, n - 1);
    }
}

/// Folding the files of gone processes into the aggregate does not change the
/// total: aggregating again over what is left gives the same counters.
pub proof fn folding_keeps_the_total(base: MetricsSnapshot, v: Seq<ProcessSnapshot>, n: int)
    requires
        0 <= n <= v.len(),
    ensures
        sum_all(sum_where(base, v, false, n), staying(v, n), staying(v, n).len() as int) == sum_all(
            base,
            v,
            n,
        ),
    decreases n,
{
    if n > 0 {
        folding_keeps_the_total(base, v, n - 1);
        let rest = staying(v, n - 1);
        let x = v[n - 1];
        let old_base = sum_where(base, v, false, n - 1);
        if x.alive {
            sum_take(old_base, rest, x, rest.len() as int);
        } else {
            shift_base(old_base, x.snapshot, rest, rest.len() as int);
        }
    }
}

proof fn shift_base(base: MetricsSnapshot, x: MetricsSnapshot, v: Seq<ProcessSnapshot>, n: int)
    requires
        0 <= n <= v.len(),
    ensures
        sum_all(summed(base, x), v, n) == summed(sum_all(base, v, n), x),
    decreases n,
{
    if n > 0 {
        shift_base(base, x, v, n - 1);
        let s = sum_all(base, v, n - 1);
        let y = v[n - 1].snapshot;
        sums_regroup(s, x, y);
        sums_regroup(s, y, x);
        sums_regroup(x, y, x);
    }
}

/// What came of one try to create the aggregate lock file.
#[derive(Debug, Clone, Copy, PartialEq, Eq, Structural)]
pub enum LockTry {
    Created,
    /// Somebody holds the lock; its age, where it can be told.
    Held { age_ms: Option<u64> },
}

/// What to do after a try, and whether another try follows.
#[derive(Debug, Clone, Copy, PartialEq, Eq, Structural)]
pub enum LockStep {
    /// The lock is ours.
    Acquired,
    /// Remove the stale lock file.
    RemoveStale { again: bool },
    /// Wait this long.
    Wait { ms: u64, again: bool },
}

pub const LOCK_TRIES: u32 = 20;

/// What to do after the `tries`-th try: a lock older than a minute is stale, and
/// after the last try the aggregation goes on without the lock.
pub fn aggregate_lock_step(tries: u32, seen: LockTry) -> (step: LockStep)
    ensures
        step == (match seen {
            LockTry::Created => LockStep::Acquired,
            LockTry::Held { age_ms } => if age_ms is Some && age_ms->0 > 60000 {
                LockStep::RemoveStale { again: tries < LOCK_TRIES }
            } else {
                LockStep::Wait { ms: 5, again: tries < LOCK_TRIES }
            },
        }),
{
    let again = tries < LOCK_TRIES;
    match seen {
        LockTry::Created => LockStep::Acquired,
        LockTry::Held { age_ms } => match age_ms {
            Some(ms) => if ms > 60000 {
                LockStep::RemoveStale { again }
            } else {
                LockStep::Wait { ms: 5, again }
            },
            None => LockStep::Wait { ms: 5, again },
        },
    }
}

/// One counter of the text exposition.
pub open spec fn exposition(name: Seq<char>, help: Seq<char>, n: u64) -> Seq<char> {
    "# HELP "@ + name + " "@ + help + "\n# TYPE "@ + name + " counter\n"@ + name + " "@ + decimal(
        n as nat,
    ) + "\n"@
}

fn push_counter(s: &mut String, name: &str, help: &str, n: u64)
    ensures
        final(s)@ == old(s)@ + exposition(name@, help@, n),
{
    let ghost start = s@;
    s.append("# HELP ");
    s.append(name);
    s.append(" ");
    s.append(help);
    s.append("\n# TYPE ");
    s.append(name);
    s.append(" counter\n");
    s.append(name);
    s.append(" ");
    push_number(s, n);
    s.append("\n");
    assert(s@ =~= start + exposition(name@, help@, n));
}

/// The text exposition of a snapshot.
pub open spec fn prometheus(s: MetricsSnapshot) -> Seq<char> {
    exposition("shikigami_runs_total"@, "Total runs attempted"@, s.runs_total) + exposition(
        "shikigami_runs_success_total"@,
        "Successful runs"@,
        s.runs_success,
    ) + exposition("shikigami_runs_failed_total"@, "Failed runs"@, s.runs_failed) + exposition(
        "shikigami_runs_parked_total"@,
        "Parked runs"@,
        s.runs_parked,
    ) + exposition("shikigami_turns_total"@, "Model turns completed"@, s.turns_total) + exposition(
        "shikigami_plane_errors_total"@,
        "Plane/governance errors observed"@,
        s.plane_errors,
    ) + exposition(
        "shikigami_tokens_input_total"@,
        "Input tokens reported by models"@,
        s.tokens_input_total,
    ) + exposition(
        "shikigami_tokens_output_total"@,
        "Output tokens reported by models"@,
        s.tokens_output_total,
    )
}

impl MetricsSnapshot {
    /// Prometheus text exposition.
    pub fn to_prometheus(&self) -> (s: String)
        ensures
            s@ == prometheus(*self),
    {
        let mut s = String::new();
        push_counter(&mut s, "shikigami_runs_total", "Total runs attempted", self.runs_total);
        assert(s@ =~= exposition(
            "shikigami_runs_total"@,
            "Total runs attempted"@,
            self.runs_total,
        ));
        push_counter(&mut s, "shikigami_runs_success_total", "Successful runs", self.runs_success);
        push_counter(&mut s, "shikigami_runs_failed_total", "Failed runs", self.runs_failed);
        push_counter(&mut s, "shikigami_runs_parked_total", "Parked runs", self.runs_parked);
        push_counter(&mut s, "shikigami_turns_total", "Model turns completed", self.turns_total);
        push_counter(
            &mut s,
            "shikigami_plane_errors_total",
            "Plane/governance errors observed",
            self.plane_errors,
        );
        push_counter(
            &mut s,
            "shikigami_tokens_input_total",
            "Input tokens reported by models",
            self.tokens_input_total,
        );
        push_counter(
            &mut s,
            "shikigami_tokens_output_total",
            "Output tokens reported by models",
            self.tokens_output_total,
        );
        s
    }
}

/// As long as no counter is full, a run is counted once in all and once as parked, as a
/// success or as a failure; its turns and its tokens are added each to their own totals.
pub proof fn run_is_counted_once(
    s: MetricsSnapshot,
    success: bool,
    parked: bool,
    turns: u32,
    input_tokens: u64,
    output_tokens: u64,
)
    requires
        s.runs_total < u64::MAX,
        s.runs_success < u64::MAX,
        s.runs_failed < u64::MAX,
        s.runs_parked < u64::MAX,
        s.turns_total + turns <= u64::MAX,
        s.tokens_input_total + input_tokens <= u64::MAX,
        s.tokens_output_total + output_tokens <= u64::MAX,
    ensures
        ({
            let n = counted(s, success, parked, turns, input_tokens, output_tokens);
            &&& n.runs_total == s.runs_total + 1
            &&& parked ==> n.runs_parked == s.runs_parked + 1 && n.runs_success == s.runs_success
                && n.runs_failed == s.runs_failed
            &&& !parked && success ==> n.runs_parked == s.runs_parked && n.runs_success
                == s.runs_success + 1 && n.runs_failed == s.runs_failed
            &&& !parked && !success ==> n.runs_parked == s.runs_parked && n.runs_success
                == s.runs_success && n.runs_failed == s.runs_failed + 1
            &&& n.turns_total == s.turns_total + turns
            &&& n.tokens_input_total == s.tokens_input_total + input_tokens
            &&& n.tokens_output_total == s.tokens_output_total + output_tokens
            &&& n.plane_errors == s.plane_errors
        }),
{
}

/// Two snapshots add up counter by counter, as long as no sum is over the largest count.
pub proof fn sum_is_by_counter(a: MetricsSnapshot, b: MetricsSnapshot)
    ensures
        ({
            let s = summed(a, b);
            &&& a.runs_total + b.runs_total <= u64::MAX ==> s.runs_total == a.runs_total
                + b.runs_total
            &&& a.runs_success + b.runs_success <= u64::MAX ==> s.runs_success == a.runs_success
                + b.runs_success
            &&& a.runs_failed + b.runs_failed <= u64::MAX ==> s.runs_failed == a.runs_failed
                + b.runs_failed
            &&& a.runs_parked + b.runs_parked <= u64::MAX ==> s.runs_parked == a.runs_parked
                + b.runs_parked
            &&& a.turns_total + b.turns_total <= u64::MAX ==> s.turns_total == a.turns_total
                + b.turns_total
            &&& a.plane_errors + b.plane_errors <= u64::MAX ==> s.plane_errors == a.plane_errors
                + b.plane_errors
            &&& a.tokens_input_total + b.tokens_input_total <= u64::MAX ==> s.tokens_input_total
                == a.tokens_input_total + b.tokens_input_total
            &&& a.tokens_output_total + b.tokens_output_total <= u64::MAX ==> s.tokens_output_total
                == a.tokens_output_total + b.tokens_output_total
            &&& a.runs_total + b.runs_total > u64::MAX ==> s.runs_total == u64::MAX
        }),
{
}

/// A snapshot is taken for that of a live process just where the process answers and is the
/// one that wrote it, as far as its identity is known.
pub proof fn snapshot_is_of_the_process_that_wrote_it(
    p: PersistedMetrics,
    current_identity: Option<&str>,
    answers: bool,
)
    ensures
        alive(p, current_identity, answers) <==> answers && p.process_id != 0 && (
        p.process_identity@.len() == 0 || current_identity is None || trim(current_identity->0@)
            == p.process_identity@),
{
}

/// Just the files of processes that are gone are folded, each once and in order.
pub proof fn gone_processes_are_folded(v: Seq<ProcessSnapshot>, n: int)
    requires
        0 <= n <= v.len(),
    ensures
        forall|i: int| 0 <= i < n && !(#[trigger] v[i]).alive ==> gone_before(v, n).contains(i),
        forall|k: int|
            0 <= k < gone_before(v, n).len() ==> 0 <= #[trigger] gone_before(v, n)[k] < n
                && !v[gone_before(v, n)[k]].alive,
        forall|k: int, l: int|
            0 <= k < l < gone_before(v, n).len() ==> #[trigger] gone_before(v, n)[k]
                < #[trigger] gone_before(v, n)[l],
    decreases n,
{
    if n > 0 {
        gone_processes_are_folded(v, n - 1);
        let before = gone_before(v, n - 1);
        let all = gone_before(v, n);
        if !v[n - 1].alive {
            assert(all == before.push(n - 1));
            assert(all[before.len() as int] == n - 1);
            assert forall|i: int| 0 <= i < n && !(#[trigger] v[i]).alive implies all.contains(i) by {
                if i < n - 1 {
                    let k = choose|k: int| 0 <= k < before.len() && before[k] == i;
                    assert(all[k] == i);
                }
            }
        }
    }
}

proof fn exposition_holds_its_line(name: Seq<char>, help: Seq<char>, n: u64)
    ensures
        contains(exposition(name, help, n), name + " "@ + decimal(n as nat) + "\n"@),
{
    let a = "# HELP "@ + name + " "@ + help + "\n# TYPE "@ + name + " counter\n"@;
    let line = name + " "@ + decimal(n as nat) + "\n"@;
    assert(exposition(name, help, n) =~= a + line);
    text_holds_what_is_added(a, line);
}

proof fn exposition_is_added(s: Seq<char>, name: Seq<char>, help: Seq<char>, n: u64)
    ensures
        forall|x: Seq<char>| contains(s, x) ==> #[trigger] contains(s + exposition(name, help, n), x),
        contains(s + exposition(name, help, n), name + " "@ + decimal(n as nat) + "\n"@),
{
    let e = exposition(name, help, n);
    let line = name + " "@ + decimal(n as nat) + "\n"@;
    text_keeps_what_it_holds(s, e);
    exposition_holds_its_line(name, help, n);
    let i = choose|i: int| occurs_at(e, line, i);
    assert((s + e).subrange(s.len() + i, s.len() + i + line.len()) =~= e.subrange(
        i,
        i + line.len(),
    ));
    assert(occurs_at(s + e, line, s.len() + i));
}

/// The exposition of a snapshot has a line for each counter, with the counter's name and its
/// value.
pub proof fn exposition_tells_every_counter(s: MetricsSnapshot)
    ensures
        contains(prometheus(s), "shikigami_runs_total"@ + " "@ + decimal(s.runs_total as nat) + "\n"@),
        contains(
            prometheus(s),
            "shikigami_runs_success_total"@ + " "@ + decimal(s.runs_success as nat) + "\n"@,
        ),
        contains(
            prometheus(s),
            "shikigami_runs_failed_total"@ + " "@ + decimal(s.runs_failed as nat) + "\n"@,
        ),
        contains(
            prometheus(s),
            "shikigami_runs_parked_total"@ + " "@ + decimal(s.runs_parked as nat) + "\n"@,
        ),
        contains(prometheus(s), "shikigami_turns_total"@ + " "@ + decimal(s.turns_total as nat) + "\n"@),
        contains(
            prometheus(s),
            "shikigami_plane_errors_total"@ + " "@ + decimal(s.plane_errors as nat) + "\n"@,
        ),
        contains(
            prometheus(s),
            "shikigami_tokens_input_total"@ + " "@ + decimal(s.tokens_input_total as nat) + "\n"@,
        ),
        contains(
            prometheus(s),
            "shikigami_tokens_output_total"@ + " "@ + decimal(s.tokens_output_total as nat)
                + "\n"@,
        ),
{
    let p1 = exposition("shikigami_runs_total"@, "Total runs attempted"@, s.runs_total);
    exposition_holds_its_line("shikigami_runs_total"@, "Total runs attempted"@, s.runs_total);
    exposition_is_added(p1, "shikigami_runs_success_total"@, "Successful runs"@, s.runs_success);
    let p2 = p1 + exposition("shikigami_runs_success_total"@, "Successful runs"@, s.runs_success);
    exposition_is_added(p2, "shikigami_runs_failed_total"@, "Failed runs"@, s.runs_failed);
    let p3 = p2 + exposition("shikigami_runs_failed_total"@, "Failed runs"@, s.runs_failed);
    exposition_is_added(p3, "shikigami_runs_parked_total"@, "Parked runs"@, s.runs_parked);
    let p4 = p3 + exposition("shikigami_runs_parked_total"@, "Parked runs"@, s.runs_parked);
    exposition_is_added(p4, "shikigami_turns_total"@, "Model turns completed"@, s.turns_total);
    let p5 = p4 + exposition("shikigami_turns_total"@, "Model turns completed"@, s.turns_total);
    exposition_is_added(
        p5,
        "shikigami_plane_errors_total"@,
        "Plane/governance errors observed"@,
        s.plane_errors,
    );
    let p6 = p5 + exposition(
        "shikigami_plane_errors_total"@,
        "Plane/governance errors observed"@,
        s.plane_errors,
    );
    exposition_is_added(
        p6,
        "shikigami_tokens_input_total"@,
        "Input tokens reported by models"@,
        s.tokens_input_total,
    );
    let p7 = p6 + exposition(
        "shikigami_tokens_input_total"@,
        "Input tokens reported by models"@,
        s.tokens_input_total,
    );
    exposition_is_added(
        p7,
        "shikigami_tokens_output_total"@,
        "Output tokens reported by models"@,
        s.tokens_output_total,
    );
}

} // verus!
