//! The poll-and-drain loop of the local queue: how many jobs run at a time, when
//! it stops, and how ended jobs are counted.
use vstd::prelude::*;
use vstd::string::*;

#[allow(unused_imports)]
use crate::text::opt_view;

use super::{ServeOptions, ServeRuntimeOptions};

verus! {

/// How far the loop is.
#[derive(Debug)]
pub struct ServeProgress {
    pub completed: u64,
    pub active: usize,
    pub last_run_id: Option<String>,
    /// Shutdown was requested: claimed jobs are drained, no new ones are taken.
    pub stopping: bool,
}

/// How a job ended.
#[derive(Debug)]
pub enum JobEnd {
    /// It was run; the id of the run.
    Ran(String),
    /// It was queued again.
    Requeued,
    /// It failed, or its worker did.
    Failed,
}

/// Whether another job may be claimed.
pub open spec fn may_claim(
    p: ServeProgress,
    options: ServeOptions,
    runtime: ServeRuntimeOptions,
) -> bool {
    !p.stopping && p.active < runtime.concurrency && match options.max_jobs {
        Some(max) => p.completed + p.active < max,
        None => true,
    }
}

/// Whether as many jobs were completed as are asked for, and none runs any more.
pub open spec fn finished(p: ServeProgress, options: ServeOptions) -> bool {
    p.active == 0 && match options.max_jobs {
        Some(max) => p.completed >= max,
        None => false,
    }
}

impl ServeProgress {
    /// Whether no more jobs were taken than are permitted.
    pub open spec fn wf(self, options: ServeOptions, runtime: ServeRuntimeOptions) -> bool {
        &&& self.active <= runtime.concurrency
        &&& self.completed + self.active <= u64::MAX
        &&& options.max_jobs is Some ==> self.completed + self.active <= options.max_jobs->0
    }

    /// Nothing taken yet.
    pub fn new(options: &ServeOptions, runtime: &ServeRuntimeOptions) -> (p: Self)
        ensures
            p.completed == 0,
            p.active == 0,
            p.last_run_id is None,
            !p.stopping,
            p.wf(*options, *runtime),
    {
        ServeProgress { completed: 0, active: 0, last_run_id: None, stopping: false }
    }

    /// Whether another job may be claimed.
    pub fn claims(&self, options: &ServeOptions, runtime: &ServeRuntimeOptions) -> (r: bool)
        requires
            self.wf(*options, *runtime),
        ensures
            r == may_claim(*self, *options, *runtime),
    {
        if self.stopping || self.active >= runtime.concurrency {
            return false;
        }
        match options.max_jobs {
            Some(max) => self.completed + (self.active as u64) < max,
            None => true,
        }
    }

    /// Whether the loop has done what it was asked for.
    pub fn is_finished(&self, options: &ServeOptions) -> (r: bool)
        ensures
            r == finished(*self, *options),
    {
        if self.active != 0 {
            return false;
        }
        match options.max_jobs {
            Some(max) => self.completed >= max,
            None => false,
        }
    }

    /// Counts a job that was claimed and started.
    pub fn started(&mut self, options: &ServeOptions, runtime: &ServeRuntimeOptions)
        requires
            old(self).wf(*options, *runtime),
            may_claim(*old(self), *options, *runtime),
            old(self).completed + old(self).active < u64::MAX,
        ensures
            final(self).wf(*options, *runtime),
            *final(self) == (ServeProgress { active: (old(self).active + 1) as usize, ..*old(self) }),
    {
        self.active = self.active + 1;
    }

    /// Counts a job that ended. One that was queued again is not completed.
    pub fn ended(&mut self, end: JobEnd, options: &ServeOptions, runtime: &ServeRuntimeOptions)
        requires
            old(self).wf(*options, *runtime),
            old(self).active > 0,
        ensures
            final(self).wf(*options, *runtime),
            final(self).active == old(self).active - 1,
            final(self).stopping == old(self).stopping,
            match end {
                JobEnd::Ran(id) => {
                    &&& final(self).completed == old(self).completed + 1
                    &&& opt_view(final(self).last_run_id) == Some(id@)
                },
                JobEnd::Requeued => {
                    &&& final(self).completed == old(self).completed
                    &&& final(self).last_run_id == old(self).last_run_id
                },
                JobEnd::Failed => {
                    &&& final(self).completed == old(self).completed + 1
                    &&& final(self).last_run_id == old(self).last_run_id
                },
            },
    {
        self.active = self.active - 1;
        match end {
            JobEnd::Ran(id) => {
                self.completed = self.completed + 1;
                self.last_run_id = Some(id);
            },
            JobEnd::Requeued => {},
            JobEnd::Failed => {
                self.completed = self.completed + 1;
            },
        }
    }

    /// Stops taking jobs.
    pub fn stop(&mut self)
        ensures
            *final(self) == (ServeProgress { stopping: true, ..*old(self) }),
    {
        self.stopping = true;
    }
}

/// What the loop does next.
#[derive(Debug, Clone, Copy, PartialEq, Eq, Structural)]
pub enum LoopStep {
    /// Return, once claimed jobs were drained where the loop is stopping.
    Leave,
    /// Claim another job.
    Claim,
    /// Wait for the poll interval or shutdown.
    Idle,
    /// Wait for a job, the poll interval or shutdown.
    Join,
}

/// What the loop does next.
pub open spec fn step_of(
    p: ServeProgress,
    options: ServeOptions,
    runtime: ServeRuntimeOptions,
    shutdown: bool,
    empty: bool,
) -> LoopStep {
    if shutdown || p.stopping || finished(p, options) {
        LoopStep::Leave
    } else if !empty && may_claim(p, options, runtime) {
        LoopStep::Claim
    } else if p.active == 0 {
        LoopStep::Idle
    } else {
        LoopStep::Join
    }
}

/// What the loop does next. `empty` says whether the inbox had no job when it
/// was last asked.
pub fn next_step(
    p: &ServeProgress,
    options: &ServeOptions,
    runtime: &ServeRuntimeOptions,
    shutdown: bool,
    empty: bool,
) -> (s: LoopStep)
    requires
        p.wf(*options, *runtime),
    ensures
        s == step_of(*p, *options, *runtime, shutdown, empty),
{
    if shutdown || p.stopping || p.is_finished(options) {
        return LoopStep::Leave;
    }
    if !empty && p.claims(options, runtime) {
        return LoopStep::Claim;
    }
    if p.active == 0 {
        return LoopStep::Idle;
    }
    LoopStep::Join
}

/// The loop never runs more jobs at a time than are permitted, and never takes
/// more than are asked for.
pub proof fn jobs_stay_bounded(
    p: ServeProgress,
    options: ServeOptions,
    runtime: ServeRuntimeOptions,
)
    requires
        p.wf(options, runtime),
    ensures
        p.active <= runtime.concurrency,
        options.max_jobs is Some ==> p.completed <= options.max_jobs->0,
        options.max_jobs is Some && p.completed == options.max_jobs->0 ==> !may_claim(
            p,
            options,
            runtime,
        ),
{
}

/// A job is claimed just where one waits, nothing stops the loop, fewer jobs run than may at
/// once, and the jobs that ended or run are below the number that is asked for.
pub proof fn loop_claims_within_its_limits(
    p: ServeProgress,
    options: ServeOptions,
    runtime: ServeRuntimeOptions,
    shutdown: bool,
    empty: bool,
)
    requires
        p.wf(options, runtime),
    ensures
        step_of(p, options, runtime, shutdown, empty) == LoopStep::Claim <==> !shutdown
            && !p.stopping && !empty && p.active < runtime.concurrency && (options.max_jobs is Some
            ==> p.completed + p.active < options.max_jobs->0),
{
}

/// The loop is left just where it is told to stop or all the jobs that are asked for have
/// ended; as long as jobs run and none can be claimed it waits for them, and else it idles.
pub proof fn loop_waits_for_its_jobs(
    p: ServeProgress,
    options: ServeOptions,
    runtime: ServeRuntimeOptions,
    shutdown: bool,
    empty: bool,
)
    ensures
        step_of(p, options, runtime, shutdown, empty) == LoopStep::Leave <==> shutdown
            || p.stopping || (p.active == 0 && options.max_jobs is Some && p.completed
            >= options.max_jobs->0),
        step_of(p, options, runtime, shutdown, empty) == LoopStep::Join ==> p.active > 0,
        step_of(p, options, runtime, shutdown, empty) == LoopStep::Idle ==> p.active == 0,
        !shutdown && !p.stopping && empty && p.active > 0 ==> step_of(
            p,
            options,
            runtime,
            shutdown,
            empty,
        ) == LoopStep::Join,
{
}

} // verus!
