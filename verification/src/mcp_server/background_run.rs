//! The background run of the MCP host: single-flight admission, collected
//! events, the terminal result and its status.
use vstd::prelude::*;
use vstd::string::*;

use crate::events::push_number;
use crate::json::{add_item, put, put_text, write_json, write_json_pretty, Json};
#[allow(unused_imports)]
use crate::json::{items, json_pretty, json_writing, member, member_from, members, JsonModel};
#[allow(unused_imports)]
use crate::text::{decimal, texts};

use super::{summary_json, McpRunSummary};
#[allow(unused_imports)]
use super::summary_model;

verus! {

/// How far a background run is.
#[derive(Debug, Clone, Copy, PartialEq, Eq, Structural)]
pub enum JobPhase {
    Idle,
    Running,
    Finished,
}

impl JobPhase {
    pub open spec fn name(self) -> Seq<char> {
        match self {
            JobPhase::Idle => "idle"@,
            JobPhase::Running => "running"@,
            JobPhase::Finished => "finished"@,
        }
    }

    /// The phase as text.
    pub fn as_str(self) -> (s: &'static str)
        ensures
            s@ == self.name(),
    {
        match self {
            JobPhase::Idle => "idle",
            JobPhase::Running => "running",
            JobPhase::Finished => "finished",
        }
    }
}

/// The background run of a session.
#[derive(Debug)]
pub struct JobState {
    pub phase: JobPhase,
    pub events: Vec<String>,
    pub result: Option<Result<McpRunSummary, String>>,
}

/// How many events a status shows.
pub const RECENT_EVENTS: usize = 30;

/// The last `RECENT_EVENTS` events, oldest first.
pub open spec fn recent(v: Seq<Seq<char>>) -> Seq<Seq<char>> {
    if v.len() > RECENT_EVENTS {
        v.skip(v.len() - RECENT_EVENTS)
    } else {
        v
    }
}

/// The result of a background run as its status shows it.
pub open spec fn result_model(r: Option<Result<McpRunSummary, String>>) -> JsonModel {
    match r {
        None => JsonModel::Null,
        Some(Ok(s)) => summary_model(s),
        Some(Err(m)) => JsonModel::Object(seq![("error"@, JsonModel::Text(m@))]),
    }
}

/// The status of a background run.
pub open spec fn status_model(s: JobState) -> JsonModel {
    let shown = recent(texts(s.events@));
    JsonModel::Object(
        seq![
            ("phase"@, JsonModel::Text(s.phase.name())),
            (
                "events"@,
                JsonModel::List(Seq::new(shown.len(), |i: int| JsonModel::Text(shown[i]))),
            ),
            ("result"@, result_model(s.result)),
        ],
    )
}

/// Whether asking for a run leads from a state to another. A run that is running already
/// refuses it and goes on; any other state becomes that of a run that is starting.
pub open spec fn job_started(before: JobState, after: JobState, admitted: bool) -> bool {
    if before.phase == JobPhase::Running {
        !admitted && after == before
    } else {
        admitted && after.phase == JobPhase::Running && texts(after.events@)
            == seq!["status=starting"@] && after.result is None
    }
}

/// Whether the end of a run leads from a state to another.
pub open spec fn job_finished(
    before: JobState,
    after: JobState,
    events: Seq<Seq<char>>,
    result: Result<McpRunSummary, String>,
) -> bool {
    &&& after.phase == JobPhase::Finished
    &&& texts(after.events@) == texts(before.events@) + events
    &&& after.result == Some(result)
}

/// What waiting for a background run comes to at once.
#[derive(Debug)]
pub enum WaitStep {
    /// There is nothing to wait for.
    Refused(String),
    /// It has finished: this is its status.
    Finished(String),
    /// It is still running.
    Pending,
}

impl JobState {
    pub open spec fn idle(self) -> bool {
        self.phase == JobPhase::Idle && self.events@.len() == 0 && self.result is None
    }

    /// Whether the parts of the state fit each other: a result is there exactly
    /// once the run has finished.
    pub open spec fn wf(self) -> bool {
        self.result is Some <==> self.phase == JobPhase::Finished
    }

    /// No background run yet.
    pub fn new() -> (s: Self)
        ensures
            s.idle(),
            s.wf(),
    {
        JobState { phase: JobPhase::Idle, events: Vec::new(), result: None }
    }

    /// Admits a background run. One that is running already refuses another.
    pub fn start(&mut self) -> (r: Result<(), String>)
        requires
            old(self).wf(),
        ensures
            final(self).wf(),
            job_started(*old(self), *final(self), r is Ok),
            r matches Err(m) ==> m@ == "a background run is already in progress (single-flight)"@,
    {
        if self.phase == JobPhase::Running {
            return Err("a background run is already in progress (single-flight)".to_owned());
        }
        let mut events: Vec<String> = Vec::new();
        events.push("status=starting".to_owned());
        assert(texts(events@) =~= seq!["status=starting"@]);
        self.phase = JobPhase::Running;
        self.events = events;
        self.result = None;
        Ok(())
    }

    /// Records the end of the background run, with the events it gave.
    pub fn finish(&mut self, events: Vec<String>, result: Result<McpRunSummary, String>)
        ensures
            final(self).wf(),
            job_finished(*old(self), *final(self), texts(events@), result),
    {
        let mut all: Vec<String> = Vec::new();
        let mut i: usize = 0;
        while i < self.events.len()
            invariant
                i <= self.events@.len(),
                *self == *old(self),
                texts(all@) =~= texts(self.events@).take(i as int),
            decreases self.events@.len() - i,
        {
            let ghost before = all@;
            all.push(self.events[i].clone());
            i = i + 1;
            assert(texts(all@) =~= texts(before).push(self.events@[i - 1]@));
            assert(texts(self.events@).take(i as int) =~= texts(self.events@).take(i - 1).push(
                texts(self.events@)[i - 1],
            ));
        }
        let ghost head = texts(self.events@);
        let ghost tail = texts(events@);
        assert(head.take(head.len() as int) =~= head);
        i = 0;
        while i < events.len()
            invariant
                i <= events@.len(),
                tail == texts(events@),
                texts(all@) =~= head + tail.take(i as int),
            decreases events@.len() - i,
        {
            let ghost before = all@;
            all.push(events[i].clone());
            i = i + 1;
            assert(texts(all@) =~= texts(before).push(events@[i - 1]@));
            assert(tail.take(i as int) =~= tail.take(i - 1).push(tail[i - 1]));
        }
        assert(tail.take(tail.len() as int) =~= tail);
        self.events = all;
        self.phase = JobPhase::Finished;
        self.result = Some(result);
    }

    /// The status: phase, recent events, and the result once there is one.
    pub fn status_json(&self) -> (s: String)
        ensures
            s@ == json_pretty(status_model(*self)),
    {
        let ghost all = texts(self.events@);
        let ghost shown = recent(all);
        let ghost models = Seq::new(shown.len(), |i: int| JsonModel::Text(shown[i]));
        let from: usize = if self.events.len() > RECENT_EVENTS {
            self.events.len() - RECENT_EVENTS
        } else {
            0
        };
        let mut v: Vec<Json> = Vec::new();
        let mut i: usize = from;
        while i < self.events.len()
            invariant
                from <= i <= self.events@.len(),
                all == texts(self.events@),
                shown == recent(all),
                from == if all.len() > RECENT_EVENTS {
                    all.len() - RECENT_EVENTS
                } else {
                    0
                },
                models == Seq::new(shown.len(), |i: int| JsonModel::Text(shown[i])),
                items(v@) =~= models.take(i - from),
            decreases self.events@.len() - i,
        {
            assert(shown[i - from] == all[i as int]);
            add_item(&mut v, Json::string(self.events[i].as_str()));
            i = i + 1;
            assert(models.take(i - from) =~= models.take(i - from - 1).push(models[i - from - 1]));
        }
        assert(models.take(models.len() as int) =~= models);
        let result = match &self.result {
            None => Json::Null,
            Some(r) => match r {
                Ok(s) => summary_json(s),
                Err(m) => {
                    let mut o: Vec<(String, Json)> = Vec::new();
                    put_text(&mut o, "error", m.as_str());
                    assert(members(o@) =~= seq![("error"@, JsonModel::Text(m@))]);
                    Json::object(o)
                },
            },
        };
        let mut o: Vec<(String, Json)> = Vec::new();
        put_text(&mut o, "phase", self.phase.as_str());
        put(&mut o, "events", Json::list(v));
        put(&mut o, "result", result);
        assert(members(o@) =~= status_model(*self)->Object_0);
        let json = Json::object(o);
        write_json_pretty(&json)
    }

    /// What waiting for the background run comes to. The host looks again
    /// whenever the state has changed.
    pub fn wait(&self) -> (w: WaitStep)
        ensures
            match self.phase {
                JobPhase::Idle => w matches WaitStep::Refused(m) && m@
                    == "no background run (call run_start first)"@,
                JobPhase::Finished => w matches WaitStep::Finished(t) && t@ == json_pretty(
                    status_model(*self),
                ),
                JobPhase::Running => w is Pending,
            },
    {
        match self.phase {
            JobPhase::Idle => WaitStep::Refused(
                "no background run (call run_start first)".to_owned(),
            ),
            JobPhase::Finished => WaitStep::Finished(self.status_json()),
            JobPhase::Running => WaitStep::Pending,
        }
    }
}

/// What is answered where a wait ran out of time.
pub open spec fn timed_out_model(seconds: u64) -> JsonModel {
    JsonModel::Object(
        seq![
            ("phase"@, JsonModel::Text("running"@)),
            (
                "error"@,
                JsonModel::Text("timed out waiting after "@ + decimal(seconds as nat) + "s"@),
            ),
        ],
    )
}

/// What is answered where a wait ran out of time: the run goes on.
pub fn wait_timed_out(seconds: u64) -> (s: String)
    ensures
        s@ == json_writing(timed_out_model(seconds)),
{
    let mut text = "timed out waiting after ".to_owned();
    push_number(&mut text, seconds);
    text.append("s");
    let mut o: Vec<(String, Json)> = Vec::new();
    put_text(&mut o, "phase", "running");
    put_text(&mut o, "error", text.as_str());
    assert(members(o@) =~= timed_out_model(seconds)->Object_0);
    let json = Json::object(o);
    write_json(&json)
}

/// One thing that happens to the background run of a session.
pub enum JobStep {
    /// A run is asked for, and admitted or refused.
    Start { admitted: bool },
    /// The run ends with the events it gave and its result.
    Finish { events: Seq<Seq<char>>, result: Result<McpRunSummary, String> },
}

/// Whether one step leads from a state to another.
pub open spec fn job_follows(before: JobState, step: JobStep, after: JobState) -> bool {
    match step {
        JobStep::Start { admitted } => job_started(before, after, admitted),
        JobStep::Finish { events, result } => job_finished(before, after, events, result),
    }
}

/// Whether steps lead through the given states, one after the other.
pub open spec fn job_history(states: Seq<JobState>, steps: Seq<JobStep>) -> bool {
    &&& states.len() == steps.len() + 1
    &&& forall|k: int|
        0 <= k < steps.len() ==> job_follows(states[k], #[trigger] steps[k], states[k + 1])
}

proof fn job_runs_until_it_finishes(
    states: Seq<JobState>,
    steps: Seq<JobStep>,
    i: int,
    j: int,
)
    requires
        job_history(states, steps),
        0 <= i < j <= steps.len(),
        steps[i] == (JobStep::Start { admitted: true }),
        forall|k: int| i < k < j ==> !((#[trigger] steps[k]) is Finish),
    ensures
        states[j].phase == JobPhase::Running,
    decreases j - i,
{
    assert(job_follows(states[j - 1], steps[j - 1], states[j - 1 + 1]));
    if i < j - 1 {
        job_runs_until_it_finishes(states, steps, i, j - 1);
        assert(!(steps[j - 1] is Finish));
    }
}

/// Between two admitted starts the first run has finished: there is never more
/// than one background run.
pub proof fn background_runs_do_not_overlap(
    states: Seq<JobState>,
    steps: Seq<JobStep>,
    i: int,
    j: int,
)
    requires
        job_history(states, steps),
        0 <= i < j < steps.len(),
        steps[i] == (JobStep::Start { admitted: true }),
        steps[j] == (JobStep::Start { admitted: true }),
    ensures
        exists|k: int| i < k < j && #[trigger] steps[k] is Finish,
{
    if forall|k: int| i < k < j ==> !((#[trigger] steps[k]) is Finish) {
        job_runs_until_it_finishes(states, steps, i, j);
        assert(job_follows(states[j], steps[j], states[j + 1]));
    }
}

/// The status shows the latest events, in their order, and no more of them than it may.
pub proof fn status_shows_the_latest_events(v: Seq<Seq<char>>)
    ensures
        v.len() <= RECENT_EVENTS ==> recent(v) == v,
        v.len() > RECENT_EVENTS ==> recent(v).len() == RECENT_EVENTS,
        forall|i: int|
            0 <= i < recent(v).len() ==> #[trigger] recent(v)[i] == v[v.len() - recent(v).len()
                + i],
{
}

/// The status tells the phase, the events that are shown and the result: none before the run
/// ended, its summary where it ended well, and else its error.
pub proof fn status_tells_the_job(s: JobState)
    ensures
        member(status_model(s), "phase"@) == Some(JsonModel::Text(s.phase.name())),
        member(status_model(s), "result"@) == Some(result_model(s.result)),
        s.result is None ==> result_model(s.result) is Null,
        s.result is Some && s.result->0 is Ok ==> result_model(s.result) == summary_model(
            s.result->0->Ok_0,
        ),
        s.result is Some && s.result->0 is Err ==> member(result_model(s.result), "error"@) == Some(
            JsonModel::Text(s.result->0->Err_0@),
        ),
{
    reveal_strlit("phase");
    reveal_strlit("events");
    reveal_strlit("result");
    reveal_with_fuel(member_from, 4);
    assert("phase"@.len() != "events"@.len());
    assert("phase"@.len() != "result"@.len());
    assert("events"@[0] != "result"@[0]);
}

/// Phases have different names.
pub proof fn phase_names_differ(a: JobPhase, b: JobPhase)
    ensures
        a.name() == b.name() ==> a == b,
{
    reveal_strlit("idle");
    reveal_strlit("running");
    reveal_strlit("finished");
    assert("idle"@.len() != "running"@.len() && "running"@.len() != "finished"@.len());
}

/// A background run is admitted just where none is running; a refused one changes nothing.
pub proof fn background_run_starts_alone(before: JobState, after: JobState, admitted: bool)
    requires
        job_started(before, after, admitted),
    ensures
        admitted <==> before.phase != JobPhase::Running,
        !admitted ==> after == before,
        admitted ==> after.phase == JobPhase::Running && after.result is None,
{
}

/// A run that ends keeps the events it told, has the later ones behind them, and has its
/// result.
pub proof fn background_run_ends_with_its_result(
    before: JobState,
    after: JobState,
    events: Seq<Seq<char>>,
    result: Result<McpRunSummary, String>,
)
    requires
        job_finished(before, after, events, result),
    ensures
        after.phase == JobPhase::Finished,
        after.result == Some(result),
        texts(after.events@).len() == before.events@.len() + events.len(),
        texts(after.events@).take(before.events@.len() as int) == texts(before.events@),
        texts(after.events@).skip(before.events@.len() as int) == events,
{
    assert(texts(before.events@).len() == before.events@.len());
    assert(texts(after.events@).take(before.events@.len() as int) =~= texts(before.events@));
    assert(texts(after.events@).skip(before.events@.len() as int) =~= events);
}

} // verus!
