//! The rules of the filesystem queue: admission, claim order, retry, archival
//! names and observation.
use vstd::prelude::*;
use vstd::string::*;

use crate::canonical::push_quoted;
use crate::events::{push_bool, push_number};
#[allow(unused_imports)]
use crate::events::bool_text;
#[allow(unused_imports)]
use crate::json::json_quoted;
use crate::ids::fresh_id;
#[allow(unused_imports)]
use crate::ids::{fresh_ids_are_safe, is_fresh_form};
use crate::run::resume::join_path;
#[allow(unused_imports)]
use crate::run::resume::joined;
use crate::run::{RunRequest, RunResult, RunTermination};
use crate::text::{
    chars_of, ends_with, find_from, find_last, is_blank, is_text_le, padded_text, parse_unsigned,
    same, signed_text, text_of,
};
#[allow(unused_imports)]
use crate::text::{
    blank, contains, decimal, ends, field_added, find, find_bounds, is_digit, last_occurrence,
    occurs_at, opt_view, padded, padded_reads_back, pow10, signed_decimal, text_holds_what_is_added,
    text_keeps_what_it_holds, text_le, text_le_is_total, text_le_is_transitive, texts,
    unsigned_value,
};

use super::{HealthStatus, QueueJob, QueueResult, ServeRuntimeOptions};
#[allow(unused_imports)]
use super::at_least_one;

verus! {

// ---------------------------------------------------------------------------
// Admission
// ---------------------------------------------------------------------------

/// What becomes of a job that is handed in.
#[derive(Debug)]
pub enum Admission {
    Accepted(QueueJob),
    MissingTask,
    Full,
}

/// Whether a job is another but for its id.
pub open spec fn same_but_id(a: QueueJob, b: QueueJob) -> bool {
    a == (QueueJob { job_id: a.job_id, ..b })
}

/// Whether an admission is the one of a job that is handed in while `depth` jobs are
/// queued or running. A job without an id gets `unique`.
pub open spec fn admission_of(
    job: QueueJob,
    depth: usize,
    capacity: usize,
    unique: Seq<char>,
    a: Admission,
) -> bool {
    if blank(job.task@) {
        a is MissingTask
    } else if depth >= at_least_one(capacity) {
        a is Full
    } else {
        a matches Admission::Accepted(j) && same_but_id(j, job) && opt_view(j.job_id)
            == match job.job_id {
            Some(id) => Some(id@),
            None => Some(unique),
        }
    }
}

/// What becomes of a job that is handed in while `depth` jobs are queued or
/// running. A job without an id gets a fresh one.
pub fn admission(job: QueueJob, depth: usize, capacity: usize) -> (a: Admission)
    ensures
        exists|unique: Seq<char>|
            is_fresh_form(unique) && #[trigger] admission_of(job, depth, capacity, unique, a),
{
    let unique = fresh_id();
    let ghost id = unique@;
    let a = admission_with_id(job, depth, capacity, unique);
    assert(admission_of(job, depth, capacity, id, a));
    a
}

/// What becomes of a job that is handed in while `depth` jobs are queued or
/// running. A job without an id gets `unique`.
pub fn admission_with_id(job: QueueJob, depth: usize, capacity: usize, unique: String) -> (a:
    Admission)
    ensures
        admission_of(job, depth, capacity, unique@, a),
{
    if is_blank(job.task.as_str()) {
        return Admission::MissingTask;
    }
    let limit: usize = if capacity == 0 {
        1
    } else {
        capacity
    };
    if depth >= limit {
        return Admission::Full;
    }
    let mut job = job;
    if job.job_id.is_none() {
        job.job_id = Some(unique);
    }
    Admission::Accepted(job)
}

// ---------------------------------------------------------------------------
// Names
// ---------------------------------------------------------------------------

/// The number by which a priority is ordered: higher priorities have lower
/// numbers.
pub open spec fn priority_key(priority: i32) -> nat {
    (i32::MAX - priority) as nat
}

/// The number by which a priority is ordered.
pub fn inbox_priority_key(priority: i32) -> (k: u32)
    ensures
        k == priority_key(priority),
{
    (i32::MAX as i64 - priority as i64) as u32
}

/// The inbox name of a job.
pub open spec fn inbox_name(priority: i32, unique: Seq<char>) -> Seq<char> {
    "p"@ + padded(priority_key(priority), 10) + "-"@ + unique + ".json"@
}

/// A fresh inbox name for a job of some priority.
pub fn inbox_filename(priority: i32) -> (s: String)
    ensures
        exists|unique: Seq<char>|
            is_fresh_form(unique) && s@ == #[trigger] inbox_name(priority, unique),
        priority_of(s@) == priority,
{
    let unique = fresh_id();
    proof {
        inbox_name_tells_its_priority(priority, unique@);
    }
    inbox_filename_with(priority, unique.as_str())
}

/// The inbox name of a job. `unique` tells jobs of one priority apart.
pub fn inbox_filename_with(priority: i32, unique: &str) -> (s: String)
    ensures
        s@ == inbox_name(priority, unique@),
{
    let key = inbox_priority_key(priority);
    let digits = padded_text(key as u64, 10);
    let mut s = "p".to_owned();
    s.append(digits.as_str());
    s.append("-");
    s.append(unique);
    s.append(".json");
    s
}

/// The priority that an inbox name tells; zero where it tells none.
pub open spec fn priority_of(name: Seq<char>) -> int {
    if name.len() == 0 || name[0] != 'p' {
        0
    } else {
        let rest = name.skip(1);
        let dash = find(rest, '-', 0);
        if dash >= rest.len() || dash != 10 {
            0
        } else {
            match unsigned_value(rest.take(dash), u32::MAX as int) {
                Some(key) => i32::MAX - key,
                None => 0,
            }
        }
    }
}

/// The priority that an inbox name tells; zero where it tells none.
pub fn priority_from_inbox_name(name: &str) -> (p: i32)
    ensures
        p == priority_of(name@),
{
    let v = chars_of(name);
    if v.len() == 0 || v[0] != 'p' {
        return 0;
    }
    let tail = text_of(&v, 1, v.len());
    let rest = chars_of(tail.as_str());
    assert(rest@ =~= name@.skip(1));
    let dash = find_from(&rest, '-', 0);
    if dash >= rest.len() || dash != 10 {
        return 0;
    }
    let key = text_of(&rest, 0, dash);
    let digits = chars_of(key.as_str());
    assert(digits@ =~= rest@.take(dash as int));
    match parse_unsigned(&digits, u32::MAX as u64) {
        Some(k) => (i32::MAX as i64 - k as i64) as i32,
        None => 0,
    }
}

/// An inbox name tells the priority it was made with.
pub proof fn inbox_name_tells_its_priority(priority: i32, unique: Seq<char>)
    ensures
        priority_of(inbox_name(priority, unique)) == priority,
{
    reveal_strlit("p");
    reveal_strlit("-");
    let key = priority_key(priority);
    let digits = padded(key, 10);
    assert(pow10(10) == 10000000000) by {
        reveal_with_fuel(pow10, 11);
    }
    padded_reads_back(key, 10);
    let name = inbox_name(priority, unique);
    let rest = name.skip(1);
    assert(name[0] == 'p');
    assert(rest =~= digits + "-"@ + unique + ".json"@);
    assert(rest[10] == '-');
    assert forall|i: int| 0 <= i < 10 implies #[trigger] rest[i] != '-' by {
        assert(rest[i] == digits[i]);
        assert(is_digit(digits[i]));
    }
    find_bounds(rest, '-', 0);
    assert(rest.take(10) =~= digits);
    assert(is_digit(digits[0]));
}

/// Whether a file name has the extension of a job.
pub open spec fn is_job_name(name: Seq<char>) -> bool {
    ends(name, ".json"@) && name.len() > 5
}

/// Whether a file name has the extension of a job.
pub fn has_job_name(name: &str) -> (r: bool)
    ensures
        r == is_job_name(name@),
{
    let v = chars_of(name);
    ends_with(name, ".json") && v.len() > 5
}

/// Whether one inbox name is claimed before another, or is the same: a higher
/// priority first, then by name.
pub open spec fn claimed_first(a: Seq<char>, b: Seq<char>) -> bool {
    priority_of(a) > priority_of(b) || (priority_of(a) == priority_of(b) && text_le(a, b))
}

proof fn claim_order_is_transitive(a: Seq<char>, b: Seq<char>, c: Seq<char>)
    requires
        claimed_first(a, b),
        claimed_first(b, c),
    ensures
        claimed_first(a, c),
{
    if priority_of(a) == priority_of(b) && priority_of(b) == priority_of(c) {
        text_le_is_transitive(a, b, c);
    }
}

fn comes_first(a: &str, b: &str) -> (r: bool)
    ensures
        r == claimed_first(a@, b@),
{
    let x = priority_from_inbox_name(a);
    let y = priority_from_inbox_name(b);
    x > y || (x == y && is_text_le(a, b))
}

/// The job that is claimed next, by its place among the names in the inbox: the
/// first in claim order. Files that are no jobs are passed over, and no job has
/// to be read.
pub fn next_claim(names: &Vec<String>) -> (r: Option<usize>)
    ensures
        match r {
            Some(i) => i < names@.len() && is_job_name(texts(names@)[i as int]) && forall|j: int|
                0 <= j < names@.len() && is_job_name(#[trigger] texts(names@)[j])
                    ==> claimed_first(texts(names@)[i as int], texts(names@)[j]),
            None => forall|j: int|
                0 <= j < names@.len() ==> !is_job_name(#[trigger] texts(names@)[j]),
        },
{
    let ghost all = texts(names@);
    let mut best: Option<usize> = None;
    let mut i: usize = 0;
    while i < names.len()
        invariant
            i <= names@.len(),
            all == texts(names@),
            match best {
                Some(b) => b < i && is_job_name(all[b as int]) && forall|j: int|
                    0 <= j < i && is_job_name(#[trigger] all[j]) ==> claimed_first(
                        all[b as int],
                        all[j],
                    ),
                None => forall|j: int| 0 <= j < i ==> !is_job_name(#[trigger] all[j]),
            },
        decreases names@.len() - i,
    {
        let name = names[i].as_str();
        assert(name@ == all[i as int]);
        if has_job_name(name) {
            proof {
                text_le_is_total(name@, name@);
            }
            match best {
                None => {
                    best = Some(i);
                },
                Some(b) => {
                    let old_best = names[b].as_str();
                    assert(old_best@ == all[b as int]);
                    proof {
                        text_le_is_total(old_best@, name@);
                    }
                    if !comes_first(old_best, name) {
                        assert(claimed_first(name@, old_best@));
                        assert forall|j: int|
                            0 <= j < i + 1 && is_job_name(#[trigger] all[j]) implies claimed_first(
                            all[i as int],
                            all[j],
                        ) by {
                            if j < i {
                                claim_order_is_transitive(name@, old_best@, all[j]);
                            }
                        }
                        best = Some(i);
                    }
                },
            }
        }
        i = i + 1;
    }
    best
}

/// The name of a job while it is processed.
pub open spec fn processing_text(name: Seq<char>, unique: Seq<char>) -> Seq<char> {
    name + ".processing-"@ + unique + ".json"@
}

/// A fresh processing name for a job that is claimed.
pub fn processing_filename(name: &str) -> (s: String)
    ensures
        exists|unique: Seq<char>|
            is_fresh_form(unique) && s@ == #[trigger] processing_text(name@, unique),
        original_name(s@) == name@,
{
    let unique = fresh_id();
    proof {
        fresh_ids_are_safe(unique@);
        processing_keeps_the_name(name@, unique@);
    }
    processing_name(name, unique.as_str())
}

/// The name of a job while it is processed.
pub fn processing_name(name: &str, unique: &str) -> (s: String)
    ensures
        s@ == processing_text(name@, unique@),
{
    let mut s = name.to_owned();
    s.append(".processing-");
    s.append(unique);
    s.append(".json");
    s
}

/// The name that a job had in the inbox.
pub open spec fn original_name(name: Seq<char>) -> Seq<char> {
    match last_occurrence(name, ".processing-"@, name.len() as int) {
        Some(i) => name.take(i),
        None => name,
    }
}

/// The name that a job had in the inbox.
pub fn original_job_filename(name: &str) -> (s: String)
    ensures
        s@ == original_name(name@),
{
    let v = chars_of(name);
    let mark = chars_of(".processing-");
    match find_last(&v, &mark) {
        Some(i) => {
            let s = text_of(&v, 0, i);
            assert(s@ =~= name@.take(i as int));
            s
        },
        None => name.to_owned(),
    }
}

/// A file name without its extension.
pub open spec fn stem(name: Seq<char>) -> Seq<char> {
    if name.len() == 0 || name == "."@ || name == ".."@ {
        "job"@
    } else {
        match last_occurrence(name, "."@, name.len() as int) {
            Some(i) => if i == 0 {
                name
            } else {
                name.take(i)
            },
            None => name,
        }
    }
}

/// The stem of the name that a job had in the inbox.
pub fn original_job_stem(name: &str) -> (s: String)
    ensures
        s@ == stem(original_name(name@)),
{
    let original = original_job_filename(name);
    let o = original.as_str();
    if o.is_empty() || same(o, ".") || same(o, "..") {
        return "job".to_owned();
    }
    let v = chars_of(o);
    let dot = chars_of(".");
    match find_last(&v, &dot) {
        Some(i) => {
            if i == 0 {
                return original;
            }
            let s = text_of(&v, 0, i);
            assert(s@ =~= o@.take(i as int));
            s
        },
        None => original,
    }
}

proof fn last_occurrence_is(s: Seq<char>, p: Seq<char>, i: int, at: int)
    requires
        0 <= at <= i,
        occurs_at(s, p, at),
        forall|j: int| at < j <= i ==> !occurs_at(s, p, j),
    ensures
        last_occurrence(s, p, i) == Some(at),
    decreases i - at,
{
    if i > at {
        last_occurrence_is(s, p, i - 1, at);
    }
}

proof fn mark_starts_once()
    ensures
        ".processing-"@.len() == 12,
        ".processing-"@[0] == '.',
        forall|k: int| 0 < k < 12 ==> #[trigger] ".processing-"@[k] != '.',
{
    reveal_strlit(".processing-");
}

/// The name that a job had in the inbox is found again in its processing name,
/// where what tells the processing apart holds no dot.
pub proof fn processing_keeps_the_name(name: Seq<char>, unique: Seq<char>)
    requires
        forall|i: int| 0 <= i < unique.len() ==> #[trigger] unique[i] != '.',
    ensures
        original_name(processing_text(name, unique)) == name,
{
    mark_starts_once();
    let mark = ".processing-"@;
    assert(".json"@.len() == 5) by {
        reveal_strlit(".json");
    }
    let s = processing_text(name, unique);
    let at = name.len() as int;
    assert(s.subrange(at, at + 12) =~= mark);
    assert forall|j: int| at < j <= s.len() implies !occurs_at(s, mark, j) by {
        if occurs_at(s, mark, j) {
            assert(s.subrange(j, j + 12)[0] == s[j]);
            assert(s[j] == '.');
            let k = j - at;
            if k < 12 {
                assert(s[j] == mark[k]);
            } else {
                assert(k - 12 < unique.len());
                assert(s[j] == unique[k - 12]);
            }
        }
    }
    last_occurrence_is(s, mark, s.len() as int, at);
    assert(s.take(at) =~= name);
}

// ---------------------------------------------------------------------------
// Running a job
// ---------------------------------------------------------------------------

/// The time limit of a job, in milliseconds.
pub open spec fn job_timeout(seconds: Option<u64>) -> Option<u64> {
    match seconds {
        None => None,
        Some(s) => Some(
            if s * 1000 > u64::MAX {
                u64::MAX
            } else {
                (s * 1000) as u64
            },
        ),
    }
}

/// The run that a job asks for.
pub fn job_request(job: &QueueJob) -> (r: RunRequest)
    ensures
        r.task@ == job.task@,
        r.keep_workspace == job.keep_workspace,
        opt_view(r.logical_operation_id) == opt_view(job.logical_operation_id),
        r.timeout_ms == job_timeout(job.timeout_secs),
        r.resume_run_id is None,
        r.resume_answer is None,
        r.restore_snapshot is None,
{
    let mut request = RunRequest::new(job.task.clone());
    request.keep_workspace = job.keep_workspace;
    request.logical_operation_id = match &job.logical_operation_id {
        Some(id) => Some(id.clone()),
        None => None,
    };
    request.timeout_ms = match job.timeout_secs {
        None => None,
        Some(s) => match s.checked_mul(1000) {
            Some(ms) => Some(ms),
            None => Some(u64::MAX),
        },
    };
    request
}

fn copy_option(o: &Option<String>) -> (r: Option<String>)
    ensures
        r == *o,
{
    match o {
        Some(s) => Some(s.clone()),
        None => None,
    }
}

/// The job that stands in the queue after a harness error, where it has attempts left.
pub open spec fn after_error(job: QueueJob, retry_limit: u32) -> Option<QueueJob> {
    if job.attempt < retry_limit {
        Some(QueueJob { attempt: (job.attempt + 1) as u32, ..job })
    } else {
        None
    }
}

/// The job to queue again after a harness error, where it has attempts left.
pub fn retried(job: &QueueJob, retry_limit: u32) -> (r: Option<QueueJob>)
    ensures
        r == after_error(*job, retry_limit),
{
    if job.attempt < retry_limit {
        return Some(
            QueueJob {
                job_id: copy_option(&job.job_id),
                task: job.task.clone(),
                priority: job.priority,
                attempt: job.attempt + 1,
                keep_workspace: job.keep_workspace,
                logical_operation_id: copy_option(&job.logical_operation_id),
                timeout_secs: job.timeout_secs,
            },
        );
    }
    None
}

/// How often a job is run where its first `errors` runs end with a harness error.
pub open spec fn runs_of(job: QueueJob, retry_limit: u32, errors: nat) -> nat
    decreases errors,
{
    if errors == 0 {
        1
    } else {
        match after_error(job, retry_limit) {
            Some(again) => 1 + runs_of(again, retry_limit, (errors - 1) as nat),
            None => 1,
        }
    }
}

/// However often it fails, a job is run at most once more than it has attempts left. A
/// fresh job is thus run at most once more than the retry limit.
pub proof fn retries_are_bounded(job: QueueJob, retry_limit: u32, errors: nat)
    ensures
        runs_of(job, retry_limit, errors) <= 1 + if job.attempt < retry_limit {
            retry_limit - job.attempt
        } else {
            0
        },
    decreases errors,
{
    if errors > 0 && job.attempt < retry_limit {
        retries_are_bounded(
            after_error(job, retry_limit)->0,
            retry_limit,
            (errors - 1) as nat,
        );
    }
}

/// Whether a job counts as done: it succeeded and is not parked.
pub open spec fn is_done(result: RunResult) -> bool {
    result.success && result.termination != RunTermination::Parked
}

/// Whether a job is archived as done, rather than as failed.
pub fn archived_as_done(result: &RunResult) -> (r: bool)
    ensures
        r == is_done(*result),
{
    result.success && result.termination != RunTermination::Parked
}

/// What is recorded of a job that was run.
pub fn queue_result(job_path: &str, job: &QueueJob, result: &RunResult) -> (q: QueueResult)
    ensures
        q.job_path@ == job_path@,
        q.job_id == job.job_id,
        q.attempt == job.attempt,
        q.run_id@ == result.run_id@,
        q.success == result.success,
        q.termination@ == result.termination.name(),
        q.summary@ == result.summary@,
        q.turns == result.turns,
        q.artifact_dir == result.artifact_dir,
{
    QueueResult {
        job_path: job_path.to_owned(),
        job_id: copy_option(&job.job_id),
        attempt: job.attempt,
        run_id: result.run_id.clone(),
        success: result.success,
        termination: result.termination.as_str().to_owned(),
        summary: result.summary.clone(),
        turns: result.turns,
        artifact_dir: copy_option(&result.artifact_dir),
    }
}

/// A suffix for the archive names of a job whose own names are taken. One suffix serves
/// the job and its result.
pub fn archive_suffix() -> (suffix: String)
    ensures
        is_fresh_form(suffix@),
{
    fresh_id()
}

/// Where the result of a job is written: under the stem of its name, or with a
/// suffix where that is taken.
pub fn result_path(directory: &str, job_name: &str, taken: bool, suffix: &str) -> (s: String)
    ensures
        s@ == joined(directory@, stem(original_name(job_name@)) + if taken {
            "-"@ + suffix@ + ".result.json"@
        } else {
            ".result.json"@
        }),
{
    let mut name = original_job_stem(job_name);
    if taken {
        name.append("-");
        name.append(suffix);
        name.append(".result.json");
    } else {
        name.append(".result.json");
    }
    assert(name@ =~= stem(original_name(job_name@)) + if taken {
        "-"@ + suffix@ + ".result.json"@
    } else {
        ".result.json"@
    });
    join_path(directory, name.as_str())
}

/// Where a job is archived: under its inbox name, or with a suffix where that is
/// taken.
pub fn archive_path(directory: &str, job_name: &str, taken: bool, suffix: &str) -> (s: String)
    ensures
        s@ == joined(directory@, if taken {
            stem(original_name(job_name@)) + "-"@ + suffix@ + ".json"@
        } else {
            original_name(job_name@)
        }),
{
    if taken {
        let mut name = original_job_stem(job_name);
        name.append("-");
        name.append(suffix);
        name.append(".json");
        return join_path(directory, name.as_str());
    }
    let name = original_job_filename(job_name);
    join_path(directory, name.as_str())
}

// ---------------------------------------------------------------------------
// Counts, cache and health
// ---------------------------------------------------------------------------

/// How many files the queue holds.
#[derive(Debug, Clone, Copy, PartialEq, Eq, Structural)]
pub struct QueueCounts {
    pub inbox_entries: usize,
    pub inbox_json: usize,
    pub processing_json: usize,
}

/// How many of the first `n` names are job names.
pub open spec fn jobs_before(names: Seq<Seq<char>>, n: int) -> nat
    decreases n,
{
    if n <= 0 || n > names.len() {
        0
    } else {
        jobs_before(names, n - 1) + (if is_job_name(names[n - 1]) {
            1nat
        } else {
            0nat
        })
    }
}

/// How many entries a directory has, and how many of them are jobs.
pub fn count_inbox(names: &Vec<String>) -> (r: (usize, usize))
    ensures
        r.0 == names@.len(),
        r.1 == jobs_before(texts(names@), names@.len() as int),
        r.1 <= r.0,
{
    let ghost all = texts(names@);
    let mut json: usize = 0;
    let mut i: usize = 0;
    while i < names.len()
        invariant
            i <= names@.len(),
            all == texts(names@),
            json <= i,
            json == jobs_before(all, i as int),
        decreases names@.len() - i,
    {
        if has_job_name(names[i].as_str()) {
            json = json + 1;
        }
        i = i + 1;
    }
    (names.len(), json)
}

/// What the queue remembers between looks at its directories. Times are
/// modification times.
#[derive(Debug)]
pub struct QueueCache {
    pub inbox_mtime: Option<u64>,
    pub inbox_idle: bool,
    pub last_health: Option<String>,
    pub counts: Option<QueueCounts>,
    pub counts_inbox_mtime: Option<u64>,
    pub counts_processing_mtime: Option<u64>,
}

impl QueueCache {
    /// Nothing remembered.
    pub fn new() -> (c: Self)
        ensures
            !c.inbox_idle,
            c.inbox_mtime is None,
            c.last_health is None,
            c.counts is None,
            c.counts_inbox_mtime is None,
            c.counts_processing_mtime is None,
    {
        QueueCache {
            inbox_mtime: None,
            inbox_idle: false,
            last_health: None,
            counts: None,
            counts_inbox_mtime: None,
            counts_processing_mtime: None,
        }
    }

    /// Whether the inbox is known to be empty: it was when it was last looked
    /// at, and has not changed since.
    pub fn inbox_is_idle(&self, mtime: Option<u64>) -> (r: bool)
        ensures
            r == (self.inbox_idle && mtime is Some && self.inbox_mtime == mtime),
    {
        match (self.inbox_mtime, mtime) {
            (Some(a), Some(b)) => self.inbox_idle && a == b,
            _ => false,
        }
    }

    /// Remembers that the inbox was empty.
    pub fn mark_inbox_idle(&mut self, mtime: Option<u64>)
        ensures
            *final(self) == (QueueCache { inbox_idle: true, inbox_mtime: mtime, ..*old(self) }),
    {
        self.inbox_idle = true;
        self.inbox_mtime = mtime;
    }

    /// Forgets what a change of the inbox makes stale.
    pub fn invalidate_inbox(&mut self)
        ensures
            *final(self) == (QueueCache {
                inbox_idle: false,
                inbox_mtime: None,
                counts: None,
                last_health: None,
                ..*old(self)
            }),
    {
        self.inbox_idle = false;
        self.inbox_mtime = None;
        self.counts = None;
        self.last_health = None;
    }

    /// The remembered counts, while neither directory has changed.
    pub fn known_counts(&self, inbox_mtime: Option<u64>, processing_mtime: Option<u64>) -> (r: Option<
        QueueCounts,
    >)
        ensures
            r == if self.counts_inbox_mtime == inbox_mtime && self.counts_processing_mtime
                == processing_mtime {
                self.counts
            } else {
                None
            },
    {
        if same_time(self.counts_inbox_mtime, inbox_mtime) && same_time(
            self.counts_processing_mtime,
            processing_mtime,
        ) {
            self.counts
        } else {
            None
        }
    }

    /// Remembers counts.
    pub fn remember_counts(
        &mut self,
        counts: QueueCounts,
        inbox_mtime: Option<u64>,
        processing_mtime: Option<u64>,
    )
        ensures
            *final(self) == (QueueCache {
                counts: Some(counts),
                counts_inbox_mtime: inbox_mtime,
                counts_processing_mtime: processing_mtime,
                ..*old(self)
            }),
    {
        self.counts = Some(counts);
        self.counts_inbox_mtime = inbox_mtime;
        self.counts_processing_mtime = processing_mtime;
    }

    /// Whether a health snapshot has to be written: only where it differs from
    /// the last one.
    pub fn health_changed(&mut self, snapshot: &str) -> (r: bool)
        ensures
            r == (opt_view(old(self).last_health) != Some(snapshot@)),
            opt_view(final(self).last_health) == Some(snapshot@),
            *final(self) == (QueueCache { last_health: final(self).last_health, ..*old(self) }),
    {
        if let Some(last) = &self.last_health {
            if same(last.as_str(), snapshot) {
                return false;
            }
        }
        self.last_health = Some(snapshot.to_owned());
        true
    }
}

fn same_time(a: Option<u64>, b: Option<u64>) -> (r: bool)
    ensures
        r == (a == b),
{
    match (a, b) {
        (Some(x), Some(y)) => x == y,
        (None, None) => true,
        _ => false,
    }
}

/// What the daemon says of itself.
pub fn health_status(
    product: &str,
    version: &str,
    counts: QueueCounts,
    running: bool,
    last_run_id: Option<String>,
    running_jobs: usize,
    runtime: &ServeRuntimeOptions,
) -> (h: HealthStatus)
    requires
        counts.inbox_json + counts.processing_json <= usize::MAX,
    ensures
        h.ok,
        h.product@ == product@,
        h.version@ == version@,
        h.queue_inbox == counts.inbox_entries,
        h.running == running,
        h.last_run_id == last_run_id,
        h.running_jobs == running_jobs,
        h.queue_capacity == runtime.queue_capacity,
        h.queue_over_capacity == (counts.inbox_json + counts.processing_json
            > runtime.queue_capacity),
{
    HealthStatus {
        ok: true,
        product: product.to_owned(),
        version: version.to_owned(),
        queue_inbox: counts.inbox_entries,
        running,
        last_run_id,
        running_jobs,
        queue_capacity: runtime.queue_capacity,
        queue_over_capacity: counts.inbox_json + counts.processing_json > runtime.queue_capacity,
    }
}

/// A text or `null`.
pub open spec fn optional_text(o: Option<Seq<char>>) -> Seq<char> {
    match o {
        Some(s) => json_quoted(s),
        None => "null"@,
    }
}

/// A health snapshot as compact JSON.
pub open spec fn health_text(h: HealthStatus) -> Seq<char> {
    "{\"ok\":"@ + bool_text(h.ok) + ",\"product\":"@ + json_quoted(h.product@) + ",\"version\":"@
        + json_quoted(h.version@) + ",\"queue_inbox\":"@ + decimal(h.queue_inbox as nat)
        + ",\"running\":"@ + bool_text(h.running) + ",\"last_run_id\":"@ + optional_text(
        opt_view(h.last_run_id),
    ) + ",\"running_jobs\":"@ + decimal(h.running_jobs as nat) + ",\"queue_capacity\":"@ + decimal(
        h.queue_capacity as nat,
    ) + ",\"queue_over_capacity\":"@ + bool_text(h.queue_over_capacity) + "}"@
}

/// A health snapshot as compact JSON.
pub fn health_json(h: &HealthStatus) -> (s: String)
    ensures
        s@ == health_text(*h),
{
    let mut s = "{\"ok\":".to_owned();
    push_bool(&mut s, h.ok);
    s.append(",\"product\":");
    push_quoted(&mut s, h.product.as_str());
    s.append(",\"version\":");
    push_quoted(&mut s, h.version.as_str());
    s.append(",\"queue_inbox\":");
    push_number(&mut s, h.queue_inbox as u64);
    s.append(",\"running\":");
    push_bool(&mut s, h.running);
    s.append(",\"last_run_id\":");
    match &h.last_run_id {
        Some(id) => push_quoted(&mut s, id.as_str()),
        None => s.append("null"),
    }
    s.append(",\"running_jobs\":");
    push_number(&mut s, h.running_jobs as u64);
    s.append(",\"queue_capacity\":");
    push_number(&mut s, h.queue_capacity as u64);
    s.append(",\"queue_over_capacity\":");
    push_bool(&mut s, h.queue_over_capacity);
    s.append("}");
    s
}

/// What is answered where no health snapshot was written yet.
pub fn health_fallback(product: &str) -> (s: String)
    ensures
        s@ == "{\"ok\":true,\"product\":"@ + json_quoted(product@) + "}"@,
{
    let mut s = "{\"ok\":true,\"product\":".to_owned();
    push_quoted(&mut s, product);
    s.append("}");
    s
}

/// A member of a JSON object that is left out where there is no text.
pub open spec fn skipped_text(
    label: Seq<char>,
    o: Option<Seq<char>>,
    after: Seq<char>,
) -> Seq<char> {
    match o {
        Some(t) => label + json_quoted(t) + after,
        None => Seq::empty(),
    }
}

/// A job as compact JSON. What is not set is left out.
pub open spec fn job_text(j: QueueJob) -> Seq<char> {
    "{"@ + skipped_text("\"job_id\":"@, opt_view(j.job_id), ","@) + "\"task\":"@ + json_quoted(
        j.task@,
    ) + ",\"priority\":"@ + signed_decimal(j.priority as int) + ",\"attempt\":"@ + decimal(
        j.attempt as nat,
    ) + ",\"keep_workspace\":"@ + bool_text(j.keep_workspace) + skipped_text(
        ",\"logical_operation_id\":"@,
        opt_view(j.logical_operation_id),
        Seq::empty(),
    ) + (match j.timeout_secs {
        Some(n) => ",\"timeout_secs\":"@ + decimal(n as nat),
        None => Seq::empty(),
    }) + "}"@
}

/// A job as compact JSON.
pub fn job_json(j: &QueueJob) -> (s: String)
    ensures
        s@ == job_text(*j),
{
    let mut s = "{".to_owned();
    if let Some(id) = &j.job_id {
        s.append("\"job_id\":");
        push_quoted(&mut s, id.as_str());
        s.append(",");
    }
    let ghost head = "{"@ + skipped_text("\"job_id\":"@, opt_view(j.job_id), ","@);
    assert(s@ =~= head);
    s.append("\"task\":");
    push_quoted(&mut s, j.task.as_str());
    s.append(",\"priority\":");
    let p = signed_text(j.priority as i64);
    s.append(p.as_str());
    s.append(",\"attempt\":");
    push_number(&mut s, j.attempt as u64);
    s.append(",\"keep_workspace\":");
    push_bool(&mut s, j.keep_workspace);
    let ghost middle = s@;
    if let Some(id) = &j.logical_operation_id {
        s.append(",\"logical_operation_id\":");
        push_quoted(&mut s, id.as_str());
    }
    assert(s@ =~= middle + skipped_text(
        ",\"logical_operation_id\":"@,
        opt_view(j.logical_operation_id),
        Seq::empty(),
    ));
    let ghost more = s@;
    if let Some(n) = j.timeout_secs {
        s.append(",\"timeout_secs\":");
        push_number(&mut s, n);
    }
    assert(s@ =~= more + (match j.timeout_secs {
        Some(n) => ",\"timeout_secs\":"@ + decimal(n as nat),
        None => Seq::empty(),
    }));
    s.append("}");
    s
}

/// A job is refused just where its task is blank or the queue is as deep as its capacity,
/// which is at least one; an accepted job is the one that was sent, with an id if it had
/// none.
pub proof fn job_is_admitted_below_the_capacity(
    job: QueueJob,
    depth: usize,
    capacity: usize,
    unique: Seq<char>,
    a: Admission,
)
    requires
        admission_of(job, depth, capacity, unique, a),
    ensures
        a is MissingTask <==> blank(job.task@),
        a is Full <==> !blank(job.task@) && depth > 0 && depth >= capacity,
        a is Accepted ==> a->Accepted_0.task == job.task && a->Accepted_0.priority == job.priority
            && a->Accepted_0.attempt == job.attempt && a->Accepted_0.timeout_secs
            == job.timeout_secs && a->Accepted_0.keep_workspace == job.keep_workspace
            && a->Accepted_0.logical_operation_id == job.logical_operation_id
            && a->Accepted_0.job_id is Some,
        a is Accepted && job.job_id is Some ==> a->Accepted_0.job_id->0@ == job.job_id->0@,
        a is Accepted && job.job_id is None ==> a->Accepted_0.job_id->0@ == unique,
{
}

/// Of two waiting jobs the one of higher priority is claimed first; of two of one priority
/// the one whose name comes first.
pub proof fn higher_priority_is_claimed_first(
    p: i32,
    a: Seq<char>,
    q: i32,
    b: Seq<char>,
)
    ensures
        p > q ==> claimed_first(inbox_name(p, a), inbox_name(q, b)) && !claimed_first(
            inbox_name(q, b),
            inbox_name(p, a),
        ),
        p == q ==> (claimed_first(inbox_name(p, a), inbox_name(q, b)) <==> text_le(
            inbox_name(p, a),
            inbox_name(q, b),
        )),
{
    inbox_name_tells_its_priority(p, a);
    inbox_name_tells_its_priority(q, b);
}

/// A timeout in seconds is a thousand times as many milliseconds, up to the largest number;
/// a job without one has none.
pub proof fn timeout_is_in_milliseconds(seconds: u64)
    ensures
        job_timeout(None) is None,
        seconds * 1000 <= u64::MAX ==> job_timeout(Some(seconds)) == Some((seconds * 1000) as u64),
        seconds * 1000 > u64::MAX ==> job_timeout(Some(seconds)) == Some(u64::MAX),
{
}

/// A job that fails is tried again, as the same job with one more attempt, just as long as
/// its attempts are below the limit.
pub proof fn failed_job_is_tried_again_below_the_limit(job: QueueJob, retry_limit: u32)
    ensures
        after_error(job, retry_limit) is Some <==> job.attempt < retry_limit,
        after_error(job, retry_limit) is Some ==> after_error(job, retry_limit)->0.attempt
            == job.attempt + 1 && after_error(job, retry_limit)->0.task == job.task && after_error(
            job,
            retry_limit,
        )->0.job_id == job.job_id && after_error(job, retry_limit)->0.priority == job.priority
            && after_error(job, retry_limit)->0.timeout_secs == job.timeout_secs,
{
}

/// A job that fails every time runs once and then once for each retry that the limit leaves.
pub proof fn retries_use_up_the_limit(job: QueueJob, retry_limit: u32, errors: nat)
    requires
        job.attempt <= retry_limit,
        errors >= retry_limit - job.attempt,
    ensures
        runs_of(job, retry_limit, errors) == 1 + (retry_limit - job.attempt),
    decreases errors,
{
    if errors > 0 && job.attempt < retry_limit {
        retries_use_up_the_limit(
            after_error(job, retry_limit)->0,
            retry_limit,
            (errors - 1) as nat,
        );
    }
}

/// A run is archived as done just where it succeeded and is not parked.
pub proof fn done_runs_succeeded(result: RunResult)
    ensures
        is_done(result) ==> result.success,
        is_done(result) ==> result.termination != RunTermination::Parked,
        result.success && result.termination != RunTermination::Parked ==> is_done(result),
{
}

/// A name counts as a job just where something stands before its ending.
pub proof fn job_names_end_in_json(name: Seq<char>)
    ensures
        name.len() > 0 ==> is_job_name(name + ".json"@),
        !is_job_name(".json"@),
        !is_job_name(Seq::empty()),
{
    reveal_strlit(".json");
    let s = name + ".json"@;
    assert(s.subrange(name.len() as int, s.len() as int) =~= ".json"@);
}

/// The count of jobs counts each job name once and nothing else.
pub proof fn jobs_are_counted_once(names: Seq<Seq<char>>, last: Seq<char>)
    ensures
        jobs_before(Seq::<Seq<char>>::empty(), 0) == 0,
        is_job_name(last) ==> jobs_before(names.push(last), (names.len() + 1) as int)
            == jobs_before(names, names.len() as int) + 1,
        !is_job_name(last) ==> jobs_before(names.push(last), (names.len() + 1) as int)
            == jobs_before(names, names.len() as int),
{
    jobs_of_a_front(names, last, names.len() as int);
}

proof fn jobs_of_a_front(names: Seq<Seq<char>>, last: Seq<char>, n: int)
    requires
        0 <= n <= names.len(),
    ensures
        jobs_before(names.push(last), n) == jobs_before(names, n),
    decreases n,
{
    if n > 0 {
        jobs_of_a_front(names, last, n - 1);
    }
}

/// The health report says under each name what the status holds.
pub proof fn health_tells_the_status(h: HealthStatus)
    ensures
        contains(health_text(h), "{\"ok\":"@ + bool_text(h.ok)),
        contains(health_text(h), ",\"product\":"@ + json_quoted(h.product@)),
        contains(health_text(h), ",\"version\":"@ + json_quoted(h.version@)),
        contains(health_text(h), ",\"queue_inbox\":"@ + decimal(h.queue_inbox as nat)),
        contains(health_text(h), ",\"running\":"@ + bool_text(h.running)),
        contains(health_text(h), ",\"last_run_id\":"@ + optional_text(opt_view(h.last_run_id))),
        contains(health_text(h), ",\"running_jobs\":"@ + decimal(h.running_jobs as nat)),
        contains(health_text(h), ",\"queue_capacity\":"@ + decimal(h.queue_capacity as nat)),
        contains(health_text(h), ",\"queue_over_capacity\":"@ + bool_text(h.queue_over_capacity)),
{
    let s0 = "{\"ok\":"@ + bool_text(h.ok);
    text_holds_what_is_added(Seq::empty(), s0);
    assert(Seq::<char>::empty() + s0 =~= s0);
    let s1 = field_added(s0, ",\"product\":"@, json_quoted(h.product@));
    let s2 = field_added(s1, ",\"version\":"@, json_quoted(h.version@));
    let s3 = field_added(s2, ",\"queue_inbox\":"@, decimal(h.queue_inbox as nat));
    let s4 = field_added(s3, ",\"running\":"@, bool_text(h.running));
    let s5 = field_added(s4, ",\"last_run_id\":"@, optional_text(opt_view(h.last_run_id)));
    let s6 = field_added(s5, ",\"running_jobs\":"@, decimal(h.running_jobs as nat));
    let s7 = field_added(s6, ",\"queue_capacity\":"@, decimal(h.queue_capacity as nat));
    let s8 = field_added(s7, ",\"queue_over_capacity\":"@, bool_text(h.queue_over_capacity));
    text_keeps_what_it_holds(s8, "}"@);
}

/// A job is written with each of its fields under its name.
pub proof fn written_job_tells_its_fields(j: QueueJob)
    ensures
        j.job_id is Some ==> contains(job_text(j), "\"job_id\":"@ + json_quoted(j.job_id->0@) + ","@),
        contains(job_text(j), "\"task\":"@ + json_quoted(j.task@)),
        contains(job_text(j), ",\"priority\":"@ + signed_decimal(j.priority as int)),
        contains(job_text(j), ",\"attempt\":"@ + decimal(j.attempt as nat)),
        contains(job_text(j), ",\"keep_workspace\":"@ + bool_text(j.keep_workspace)),
        j.logical_operation_id is Some ==> contains(
            job_text(j),
            ",\"logical_operation_id\":"@ + json_quoted(j.logical_operation_id->0@),
        ),
        j.timeout_secs is Some ==> contains(
            job_text(j),
            ",\"timeout_secs\":"@ + decimal(j.timeout_secs->0 as nat),
        ),
{
    let id = skipped_text("\"job_id\":"@, opt_view(j.job_id), ","@);
    let s0 = "{"@ + id;
    text_holds_what_is_added("{"@, id);
    let s1 = field_added(s0, "\"task\":"@, json_quoted(j.task@));
    let s2 = field_added(s1, ",\"priority\":"@, signed_decimal(j.priority as int));
    let s3 = field_added(s2, ",\"attempt\":"@, decimal(j.attempt as nat));
    let s4 = field_added(s3, ",\"keep_workspace\":"@, bool_text(j.keep_workspace));
    let op = skipped_text(
        ",\"logical_operation_id\":"@,
        opt_view(j.logical_operation_id),
        Seq::empty(),
    );
    if j.logical_operation_id is Some {
        assert(op =~= ",\"logical_operation_id\":"@ + json_quoted(j.logical_operation_id->0@));
    }
    let s5 = s4 + op;
    text_keeps_what_it_holds(s4, op);
    text_holds_what_is_added(s4, op);
    let end = match j.timeout_secs {
        Some(n) => ",\"timeout_secs\":"@ + decimal(n as nat),
        None => Seq::empty(),
    };
    let s6 = s5 + end;
    text_keeps_what_it_holds(s5, end);
    text_holds_what_is_added(s5, end);
    text_keeps_what_it_holds(s6, "}"@);
}

/// The stem of a job name is what stands before its ending.
pub proof fn stem_stands_before_the_ending(name: Seq<char>)
    requires
        name.len() > 0,
    ensures
        stem(name + ".json"@) == name,
{
    reveal_strlit(".json");
    reveal_strlit(".");
    reveal_strlit("..");
    let s = name + ".json"@;
    let at = name.len() as int;
    assert(s.len() > 2);
    assert(s.subrange(at, at + 1) =~= "."@);
    assert forall|j: int| at < j <= s.len() implies !occurs_at(s, "."@, j) by {
        if occurs_at(s, "."@, j) {
            assert(s.subrange(j, j + 1)[0] == s[j]);
            assert(s[j] == ".json"@[j - at]);
        }
    }
    last_occurrence_is(s, "."@, s.len() as int, at);
    assert(s.take(at) =~= name);
}

} // verus!
