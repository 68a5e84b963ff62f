//! Ticks: which job is next, and what becomes of it.
use crate::agent::runtime::{announcing, checkpointed, Runtime, RuntimeView};
use crate::agent::state::{job_views, Job, JobView, StateView, Status, Work, WorkView};
use crate::base::config::Config;
use crate::error::{Error, ErrorView};
use crate::failure::{reported, told, Failure, FailureView};
use crate::json::{Json, JsonView};
use crate::table::{holding, without};
use vstd::prelude::*;

verus! {

/// Where a tick stands.
#[derive(Debug)]
pub enum TickStage {
    Archiving,
    Scheduling,
    Polling,
    Saving,
    Starting { job: Job },
    Running,
    Settling,
    Rearchiving,
    Closing,
    Finished,
}

pub enum TickStageView {
    Archiving,
    Scheduling,
    Polling,
    Saving,
    Starting { job: JobView },
    Running,
    Settling,
    Rearchiving,
    Closing,
    Finished,
}

impl View for TickStage {
    type V = TickStageView;

    open spec fn view(&self) -> TickStageView {
        match self {
            TickStage::Archiving => TickStageView::Archiving,
            TickStage::Scheduling => TickStageView::Scheduling,
            TickStage::Polling => TickStageView::Polling,
            TickStage::Saving => TickStageView::Saving,
            TickStage::Starting { job } => TickStageView::Starting { job: job@ },
            TickStage::Running => TickStageView::Running,
            TickStage::Settling => TickStageView::Settling,
            TickStage::Rearchiving => TickStageView::Rearchiving,
            TickStage::Closing => TickStageView::Closing,
            TickStage::Finished => TickStageView::Finished,
        }
    }
}

/// What a tick needs next.
#[derive(Debug)]
pub enum TickNeed {
    /// Keep the jobs that are done.
    Archive,
    /// Keep the state.
    Save,
    /// Queue the research that is due.
    Schedule,
    /// Look for new work.
    Poll,
    /// Do this job.
    Execute { job: Job },
    /// Nothing more.
    Finish(Result<(), Failure>),
}

pub enum TickNeedView {
    Archive,
    Save,
    Schedule,
    Poll,
    Execute { job: JobView },
    Finish(Result<(), FailureView>),
}

impl View for TickNeed {
    type V = TickNeedView;

    open spec fn view(&self) -> TickNeedView {
        match self {
            TickNeed::Archive => TickNeedView::Archive,
            TickNeed::Save => TickNeedView::Save,
            TickNeed::Schedule => TickNeedView::Schedule,
            TickNeed::Poll => TickNeedView::Poll,
            TickNeed::Execute { job } => TickNeedView::Execute { job: job@ },
            TickNeed::Finish(x) => TickNeedView::Finish(told(*x)),
        }
    }
}

/// What came of it.
#[derive(Debug)]
pub enum TickEvent {
    Done,
    Failed(Failure),
    /// The job as it was left, and what came of it.
    Executed { job: Job, res: Result<Json, Failure> },
}

pub enum TickEventView {
    Done,
    Failed(FailureView),
    Executed { job: JobView, res: Result<JsonView, FailureView> },
}

impl View for TickEvent {
    type V = TickEventView;

    open spec fn view(&self) -> TickEventView {
        match self {
            TickEvent::Done => TickEventView::Done,
            TickEvent::Failed(x) => TickEventView::Failed(x@),
            TickEvent::Executed { job, res } => TickEventView::Executed {
                job: job@,
                res: reported(*res),
            },
        }
    }
}

// ---------------------------------------------------------------------------
// Which job is next

/// The job waits for this time, or is done and waits to be kept.
pub open spec fn ready(job: JobView, time: u64) -> bool {
    job.status == Status::Done || (job.status == Status::Pending && job.next_attempt <= time)
}

/// There is something to do at this time.
pub open spec fn due(rt: RuntimeView, time: u64) -> bool {
    let state = rt.state;
    ||| state.paused != rt.controls.paused
    ||| state.away != rt.controls.away
    ||| !rt.controls.paused && (time >= state.next_poll || time >= state.next_rundown || some_ready(
        state.jobs,
        time,
    ))
}

/// A job waits for this time, or to be kept.
pub open spec fn some_ready(jobs: Seq<JobView>, time: u64) -> bool {
    exists|i: int| 0 <= i < jobs.len() && ready(#[trigger] jobs[i], time)
}

/// Interactive work comes first, then email, then questions, then everything else.
pub open spec fn class(work: WorkView) -> nat {
    match work {
        WorkView::Ask { .. } | WorkView::Undo { .. } => 0,
        WorkView::Email { .. } => 1,
        WorkView::Discord { .. } => 2,
        _ => 3,
    }
}

/// The job can be done at this time.
pub open spec fn runnable(job: JobView, time: u64, retry_at: u64) -> bool {
    &&& job.status == Status::Pending
    &&& job.next_attempt <= time
    &&& job.work is Discord ==> time >= retry_at
}

/// The place of the job that is done next: the first of those that can be done and whose class
/// comes first.
pub open spec fn picked(jobs: Seq<JobView>, time: u64, retry_at: u64) -> Option<int>
    decreases jobs.len(),
{
    if jobs.len() == 0 {
        None
    } else {
        let before = picked(jobs.drop_last(), time, retry_at);
        let last = jobs.last();
        if runnable(last, time, retry_at) && (before is None || class(last.work) < class(
            jobs[before->0].work,
        )) {
            Some(jobs.len() - 1)
        } else {
            before
        }
    }
}

/// The job that is done next can be done, none that can be done comes before it by class, and of
/// its class it is the first; and there is one whenever a job can be done.
pub proof fn law_picked(jobs: Seq<JobView>, time: u64, retry_at: u64)
    ensures
        match picked(jobs, time, retry_at) {
            Some(at) => {
                &&& 0 <= at < jobs.len()
                &&& runnable(jobs[at], time, retry_at)
                &&& forall|i: int|
                    0 <= i < jobs.len() && runnable(#[trigger] jobs[i], time, retry_at) ==> class(
                        jobs[at].work,
                    ) <= class(jobs[i].work) && (class(jobs[at].work) == class(jobs[i].work) ==> at
                        <= i)
            },
            None => forall|i: int|
                0 <= i < jobs.len() ==> !runnable(#[trigger] jobs[i], time, retry_at),
        },
    decreases jobs.len(),
{
    if jobs.len() > 0 {
        let rest = jobs.drop_last();
        law_picked(rest, time, retry_at);
        assert forall|i: int| 0 <= i < jobs.len() - 1 implies #[trigger] jobs[i] == rest[i] by {}
    }
}

fn class_of(work: &Work) -> (res: u8)
    ensures
        res == class(work@),
{
    match work {
        Work::Ask { .. } | Work::Undo { .. } => 0,
        Work::Email { .. } => 1,
        Work::Discord { .. } => 2,
        _ => 3,
    }
}

fn is_runnable(job: &Job, time: u64, retry_at: u64) -> (res: bool)
    ensures
        res == runnable(job@, time, retry_at),
{
    let discord = match &job.work {
        Work::Discord { .. } => true,
        _ => false,
    };
    job.status == Status::Pending && job.next_attempt <= time && (!discord || time >= retry_at)
}

fn pick(jobs: &Vec<Job>, time: u64, retry_at: u64) -> (res: Option<usize>)
    ensures
        match res {
            Some(i) => i < jobs.len() && picked(job_views(jobs@), time, retry_at) == Some(i as int),
            None => picked(job_views(jobs@), time, retry_at) is None,
        },
{
    let ghost all = job_views(jobs@);
    let mut best: Option<usize> = None;
    let mut i: usize = 0;
    while i < jobs.len()
        invariant
            i <= jobs.len(),
            all == job_views(jobs@),
            match best {
                Some(b) => b < i && picked(all.take(i as int), time, retry_at) == Some(b as int),
                None => picked(all.take(i as int), time, retry_at) is None,
            },
        decreases jobs.len() - i,
    {
        proof {
            assert(all.take(i + 1).drop_last() =~= all.take(i as int));
            assert(all.take(i + 1).last() == jobs@[i as int]@);
        }
        if is_runnable(&jobs[i], time, retry_at) {
            let first = match best {
                None => true,
                Some(b) => {
                    assert(all.take(i + 1)[b as int] == jobs@[b as int]@);
                    class_of(&jobs[i].work) < class_of(&jobs[b].work)
                },
            };
            if first {
                best = Some(i);
            }
        }
        i = i + 1;
    }
    assert(all.take(i as int) =~= all);
    best
}

fn is_ready(job: &Job, time: u64) -> (res: bool)
    ensures
        res == ready(job@, time),
{
    job.status == Status::Done || (job.status == Status::Pending && job.next_attempt <= time)
}

fn any_ready(jobs: &Vec<Job>, time: u64) -> (res: bool)
    ensures
        res == some_ready(job_views(jobs@), time),
{
    let ghost all = job_views(jobs@);
    let mut i: usize = 0;
    while i < jobs.len()
        invariant
            i <= jobs.len(),
            all == job_views(jobs@),
            forall|j: int| 0 <= j < i ==> !ready(#[trigger] all[j], time),
        decreases jobs.len() - i,
    {
        assert(all[i as int] == jobs@[i as int]@);
        if is_ready(&jobs[i], time) {
            return true;
        }
        i = i + 1;
    }
    false
}

// ---------------------------------------------------------------------------
// What becomes of a job

/// Two to the power of `n`.
pub open spec fn doubled(n: nat) -> nat
    decreases n,
{
    if n == 0 {
        1
    } else {
        2 * doubled((n - 1) as nat)
    }
}

/// How long a job waits after its `attempts`th attempt failed, in seconds.
pub open spec fn backoff(attempts: u32) -> nat {
    30 * doubled(
        if attempts < 8 {
            attempts as nat
        } else {
            8
        },
    )
}

fn backoff_of(attempts: u32) -> (res: u64)
    ensures
        res == backoff(attempts),
        res <= 7680,
{
    let n: u32 = if attempts < 8 {
        attempts
    } else {
        8
    };
    let mut out: u64 = 1;
    let mut i: u32 = 0;
    assert(doubled(8) == 256) by {
        reveal_with_fuel(doubled, 10);
    }
    while i < n
        invariant
            i <= n <= 8,
            out == doubled(i as nat),
            out <= 256,
            doubled(8) == 256,
        decreases n - i,
    {
        proof {
            lemma_doubled(i as nat + 1, 8);
            assert(doubled((i + 1) as nat) == 2 * doubled(i as nat));
        }
        out = out * 2;
        i = i + 1;
    }
    out * 30
}

/// Doubling more often gives no less.
pub proof fn lemma_doubled(a: nat, b: nat)
    requires
        a <= b,
    ensures
        doubled(a) <= doubled(b),
    decreases b,
{
    if a < b {
        lemma_doubled(a, (b - 1) as nat);
    }
}

/// A sum that stops at the largest number.
pub open spec fn later(time: u64, delay: nat) -> u64 {
    if time + delay > u64::MAX {
        u64::MAX
    } else {
        (time + delay) as u64
    }
}

/// The start of the day after `day`.
pub open spec fn next_day(day: u64) -> u64 {
    if (day + 1) * 86400 > u64::MAX {
        u64::MAX
    } else {
        ((day + 1) * 86400) as u64
    }
}

fn day_after(day: u64) -> (res: u64)
    ensures
        res == next_day(day),
{
    if day >= 213_503_982_334_601 {
        u64::MAX
    } else {
        (day + 1) * 86400
    }
}

/// What a person is told of a job that needs one.
pub const NEEDS_REVIEW: &'static str =
    "A task needs your review. You can inspect it in the activity history.";

/// The agent and the job after an attempt: a result ends the job; without budget it waits for the
/// next day and the attempt does not count; where a person has to look, or the attempts are used
/// up, it waits for a person; and otherwise it waits for a while, as the service asks or twice as
/// long each time.
pub open spec fn settled(
    config: Config,
    rt: RuntimeView,
    job: JobView,
    res: Result<JsonView, FailureView>,
    time: u64,
) -> (RuntimeView, JobView) {
    match res {
        Ok(result) => (
            rt,
            JobView { result: Some(result), status: Status::Done, error: None, ..job },
        ),
        Err(failure) => {
            let failed = JobView { error: Some(failure.text()), ..job };
            if failure is Budget {
                (
                    rt,
                    JobView {
                        attempts: if job.attempts > 0 {
                            (job.attempts - 1) as u32
                        } else {
                            0
                        },
                        status: Status::Pending,
                        next_attempt: next_day(rt.state.budget_day),
                        ..failed
                    },
                )
            } else if failure is Review || job.attempts >= config.agent.max_attempts {
                (
                    announcing(rt, job.id, NEEDS_REVIEW@, failure.text(), false),
                    JobView { status: Status::Review, ..failed },
                )
            } else {
                let at = later(
                    time,
                    match failure {
                        FailureView::Later(seconds) => seconds as nat,
                        _ => backoff(job.attempts),
                    },
                );
                (
                    if job.work is Discord {
                        rt.with_state(StateView { discord_retry_at: at, ..rt.state })
                    } else {
                        rt
                    },
                    JobView { status: Status::Pending, next_attempt: at, ..failed },
                )
            }
        },
    }
}

impl Runtime {
    /// Settles an attempt at a job.
    pub fn settle(&mut self, job: Job, res: Result<Json, Failure>, time: u64) -> (out: Job)
        ensures
            (final(self)@, out@) == settled(
                old(self).config,
                old(self)@,
                job@,
                reported(res),
                time,
            ),
            final(self).config == old(self).config,
    {
        let mut job = job;
        match res {
            Ok(result) => {
                job.result = Some(result);
                job.status = Status::Done;
                job.error = None;
            },
            Err(failure) => {
                let message = failure.message();
                job.error = Some(message.clone());
                let review = match &failure {
                    Failure::Review(_) => true,
                    _ => false,
                };
                let budget = match &failure {
                    Failure::Budget => true,
                    _ => false,
                };
                if budget {
                    if job.attempts > 0 {
                        job.attempts = job.attempts - 1;
                    }
                    job.status = Status::Pending;
                    job.next_attempt = day_after(self.state.budget_day);
                } else if review || job.attempts >= self.config.agent.max_attempts {
                    job.status = Status::Review;
                    self.announce(job.id.as_str(), NEEDS_REVIEW.to_owned(), message, false);
                } else {
                    job.status = Status::Pending;
                    let delay: u64 = match &failure {
                        Failure::Later(retry) => retry.0,
                        _ => backoff_of(job.attempts),
                    };
                    job.next_attempt = time.saturating_add(delay);
                    let discord = match &job.work {
                        Work::Discord { .. } => true,
                        _ => false,
                    };
                    if discord {
                        self.state.discord_retry_at = job.next_attempt;
                    }
                }
            },
        }
        job
    }
}

// ---------------------------------------------------------------------------
// Ticks

/// The agent, where the tick stands, and what it needs next.
pub struct TickTurn {
    pub rt: RuntimeView,
    pub stage: TickStageView,
    pub need: TickNeedView,
}

pub open spec fn tick_ends(rt: RuntimeView, res: Result<(), FailureView>) -> TickTurn {
    TickTurn { rt, stage: TickStageView::Finished, need: TickNeedView::Finish(res) }
}

/// How a tick begins: it takes over what the user asks, and keeps the jobs that are done.
pub open spec fn tick_begins(rt: RuntimeView, time: u64) -> TickTurn {
    if !due(rt, time) {
        tick_ends(rt, Ok(()))
    } else {
        TickTurn {
            rt: rt.with_state(
                StateView { paused: rt.controls.paused, away: rt.controls.away, ..rt.state },
            ),
            stage: TickStageView::Archiving,
            need: TickNeedView::Archive,
        }
    }
}

pub open spec fn tick_polls(config: Config, rt: RuntimeView, time: u64) -> TickTurn {
    if time >= rt.state.next_poll {
        TickTurn {
            rt: rt.with_state(
                StateView {
                    next_poll: later(time, config.agent.poll_secs as nat),
                    ..rt.state
                },
            ),
            stage: TickStageView::Polling,
            need: TickNeedView::Poll,
        }
    } else {
        TickTurn { rt, stage: TickStageView::Saving, need: TickNeedView::Save }
    }
}

pub open spec fn tick_archived(config: Config, rt: RuntimeView, time: u64) -> TickTurn {
    if rt.state.paused {
        TickTurn { rt, stage: TickStageView::Closing, need: TickNeedView::Save }
    } else if time >= rt.state.next_rundown {
        TickTurn { rt, stage: TickStageView::Scheduling, need: TickNeedView::Schedule }
    } else {
        tick_polls(config, rt, time)
    }
}

/// The outcome of a connector, for the user to see.
pub open spec fn noted(rt: RuntimeView, name: Seq<char>, res: Result<(), FailureView>) -> RuntimeView {
    rt.with_state(
        StateView {
            connector_errors: match res {
                Ok(_) => without(rt.state.connector_errors, name),
                Err(failure) => holding(rt.state.connector_errors, name, failure.text()),
            },
            ..rt.state
        },
    )
}

pub open spec fn tick_scheduled(
    config: Config,
    rt: RuntimeView,
    time: u64,
    res: Result<(), FailureView>,
) -> TickTurn {
    let now = match res {
        Ok(_) => rt.with_state(
            StateView { next_rundown: later(time, config.agent.rundown_secs as nat), ..rt.state },
        ),
        Err(_) => rt,
    };
    tick_polls(config, noted(now, "scheduler"@, res), time)
}

/// The job on its next attempt.
pub open spec fn attempted(job: JobView, time: u64) -> JobView {
    JobView {
        status: Status::Running,
        attempts: if job.attempts < u32::MAX {
            (job.attempts + 1) as u32
        } else {
            u32::MAX
        },
        updated: time,
        ..job
    }
}

/// One bounded job per tick, which is kept as running before it is begun.
pub open spec fn tick_picks(rt: RuntimeView, time: u64) -> TickTurn {
    match picked(rt.state.jobs, time, rt.state.discord_retry_at) {
        None => tick_ends(rt, Ok(())),
        Some(at) => {
            let job = attempted(rt.state.jobs[at], time);
            TickTurn {
                rt: checkpointed(rt, job),
                stage: TickStageView::Starting { job },
                need: TickNeedView::Save,
            }
        },
    }
}

pub open spec fn tick_executed(
    config: Config,
    rt: RuntimeView,
    time: u64,
    job: JobView,
    res: Result<JsonView, FailureView>,
) -> TickTurn {
    let (now, job) = settled(config, rt, job, res, time);
    TickTurn {
        rt: checkpointed(now, job),
        stage: TickStageView::Settling,
        need: TickNeedView::Save,
    }
}

/// How a tick goes on after `event`.
pub open spec fn tick_step(
    config: Config,
    rt: RuntimeView,
    time: u64,
    stage: TickStageView,
    event: TickEventView,
) -> TickTurn {
    match (stage, event) {
        (TickStageView::Archiving, TickEventView::Done) => tick_archived(config, rt, time),
        (TickStageView::Scheduling, TickEventView::Done) => tick_scheduled(
            config,
            rt,
            time,
            Ok(()),
        ),
        (TickStageView::Scheduling, TickEventView::Failed(failure)) => tick_scheduled(
            config,
            rt,
            time,
            Err(failure),
        ),
        (TickStageView::Polling, TickEventView::Done) => TickTurn {
            rt,
            stage: TickStageView::Saving,
            need: TickNeedView::Save,
        },
        (TickStageView::Saving, TickEventView::Done) => tick_picks(rt, time),
        (TickStageView::Starting { job }, TickEventView::Done) => TickTurn {
            rt,
            stage: TickStageView::Running,
            need: TickNeedView::Execute { job },
        },
        (TickStageView::Running, TickEventView::Executed { job, res }) => tick_executed(
            config,
            rt,
            time,
            job,
            res,
        ),
        (TickStageView::Settling, TickEventView::Done) => TickTurn {
            rt,
            stage: TickStageView::Rearchiving,
            need: TickNeedView::Archive,
        },
        (TickStageView::Rearchiving, TickEventView::Done) => TickTurn {
            rt,
            stage: TickStageView::Closing,
            need: TickNeedView::Save,
        },
        (TickStageView::Closing, TickEventView::Done) => tick_ends(rt, Ok(())),
        (_, TickEventView::Failed(failure)) => tick_ends(rt, Err(failure)),
        _ => tick_ends(rt, Err(FailureView::Refused(ErrorView::Unexpected))),
    }
}

/// A tick under way.
#[derive(Debug)]
pub struct Tick {
    pub stage: TickStage,
    pub time: u64,
}

impl Runtime {
    fn note(&mut self, name: &str, res: Result<(), Failure>)
        ensures
            final(self)@ == noted(old(self)@, name@, told(res)),
            final(self).config == old(self).config,
    {
        match res {
            Ok(()) => self.state.connector_errors.remove(name),
            Err(failure) => self.state.connector_errors.insert(name, failure.message()),
        }
    }

    fn polls(&mut self, time: u64) -> (res: (TickStage, TickNeed))
        ensures
            (TickTurn { rt: final(self)@, stage: res.0@, need: res.1@ }) == tick_polls(
                old(self).config,
                old(self)@,
                time,
            ),
            final(self).config == old(self).config,
    {
        if time >= self.state.next_poll {
            self.state.next_poll = time.saturating_add(self.config.agent.poll_secs);
            (TickStage::Polling, TickNeed::Poll)
        } else {
            (TickStage::Saving, TickNeed::Save)
        }
    }

    fn scheduled(&mut self, time: u64, res: Result<(), Failure>) -> (out: (TickStage, TickNeed))
        ensures
            (TickTurn { rt: final(self)@, stage: out.0@, need: out.1@ }) == tick_scheduled(
                old(self).config,
                old(self)@,
                time,
                told(res),
            ),
            final(self).config == old(self).config,
    {
        if res.is_ok() {
            self.state.next_rundown = time.saturating_add(self.config.agent.rundown_secs);
        }
        self.note("scheduler", res);
        self.polls(time)
    }

    fn picks(&mut self, time: u64) -> (res: (TickStage, TickNeed))
        ensures
            (TickTurn { rt: final(self)@, stage: res.0@, need: res.1@ }) == tick_picks(
                old(self)@,
                time,
            ),
            final(self).config == old(self).config,
    {
        match pick(&self.state.jobs, time, self.state.discord_retry_at) {
            None => (TickStage::Finished, TickNeed::Finish(Ok(()))),
            Some(at) => {
                let mut job = self.state.jobs[at].clone();
                job.status = Status::Running;
                job.attempts = job.attempts.saturating_add(1);
                job.updated = time;
                self.checkpoint(&job);
                (TickStage::Starting { job }, TickNeed::Save)
            },
        }
    }

    fn is_due(&self, time: u64) -> (res: bool)
        ensures
            res == due(self@, time),
    {
        self.state.paused != self.controls.paused || self.state.away != self.controls.away || (
        !self.controls.paused && (time >= self.state.next_poll || time >= self.state.next_rundown
            || any_ready(&self.state.jobs, time)))
    }

    /// Begins a tick.
    pub fn tick(&mut self, time: u64) -> (res: (Tick, TickNeed))
        ensures
            (TickTurn { rt: final(self)@, stage: res.0.stage@, need: res.1@ }) == tick_begins(
                old(self)@,
                time,
            ),
            res.0.time == time,
            final(self).config == old(self).config,
    {
        if !self.is_due(time) {
            return (Tick { stage: TickStage::Finished, time }, TickNeed::Finish(Ok(())));
        }
        self.state.paused = self.controls.paused;
        self.state.away = self.controls.away;
        (Tick { stage: TickStage::Archiving, time }, TickNeed::Archive)
    }

    /// Goes on with a tick after `event`.
    pub fn tick_on(&mut self, tick: Tick, event: TickEvent) -> (res: (Tick, TickNeed))
        ensures
            (TickTurn { rt: final(self)@, stage: res.0.stage@, need: res.1@ }) == tick_step(
                old(self).config,
                old(self)@,
                tick.time,
                tick.stage@,
                event@,
            ),
            res.0.time == tick.time,
            final(self).config == old(self).config,
    {
        let time = tick.time;
        let (stage, need) = match (tick.stage, event) {
            (TickStage::Archiving, TickEvent::Done) => if self.state.paused {
                (TickStage::Closing, TickNeed::Save)
            } else if time >= self.state.next_rundown {
                (TickStage::Scheduling, TickNeed::Schedule)
            } else {
                self.polls(time)
            },
            (TickStage::Scheduling, TickEvent::Done) => self.scheduled(time, Ok(())),
            (TickStage::Scheduling, TickEvent::Failed(failure)) => self.scheduled(
                time,
                Err(failure),
            ),
            (TickStage::Polling, TickEvent::Done) => (TickStage::Saving, TickNeed::Save),
            (TickStage::Saving, TickEvent::Done) => self.picks(time),
            (TickStage::Starting { job }, TickEvent::Done) => (
                TickStage::Running,
                TickNeed::Execute { job },
            ),
            (TickStage::Running, TickEvent::Executed { job, res }) => {
                let job = self.settle(job, res, time);
                self.checkpoint(&job);
                (TickStage::Settling, TickNeed::Save)
            },
            (TickStage::Settling, TickEvent::Done) => (TickStage::Rearchiving, TickNeed::Archive),
            (TickStage::Rearchiving, TickEvent::Done) => (TickStage::Closing, TickNeed::Save),
            (TickStage::Closing, TickEvent::Done) => (
                TickStage::Finished,
                TickNeed::Finish(Ok(())),
            ),
            (_, TickEvent::Failed(failure)) => (
                TickStage::Finished,
                TickNeed::Finish(Err(failure)),
            ),
            _ => (
                TickStage::Finished,
                TickNeed::Finish(Err(Failure::Refused(Error::Unexpected))),
            ),
        };
        (Tick { stage, time }, need)
    }
}

// ---------------------------------------------------------------------------
// Looking for new work

/// A source of new work.
#[derive(Debug, Clone, Copy, PartialEq, Eq, Structural)]
pub enum Source {
    Email,
    Papers,
    Discord,
}

/// What looking for new work needs next.
#[derive(Debug)]
pub enum PollNeed {
    /// Look for new work here.
    Discover(Source),
    /// Keep the state.
    Save,
    Finish(Result<(), Failure>),
}

pub enum PollNeedView {
    Discover(Source),
    Save,
    Finish(Result<(), FailureView>),
}

impl View for PollNeed {
    type V = PollNeedView;

    open spec fn view(&self) -> PollNeedView {
        match self {
            PollNeed::Discover(source) => PollNeedView::Discover(*source),
            PollNeed::Save => PollNeedView::Save,
            PollNeed::Finish(res) => PollNeedView::Finish(told(*res)),
        }
    }
}

/// Where looking for new work stands.
#[derive(Debug, Clone, Copy, PartialEq, Eq, Structural)]
pub enum PollStage {
    Looking(Source),
    Saving,
    Finished,
}

/// A source of new work under its name.
pub open spec fn source_name(source: Source) -> Seq<char> {
    match source {
        Source::Email => "email"@,
        Source::Papers => "papers"@,
        Source::Discord => "discord"@,
    }
}

/// What came of looking at a source, for the user to see; a service that asks to be left alone is.
pub open spec fn looked(
    rt: RuntimeView,
    source: Source,
    res: Result<(), FailureView>,
    time: u64,
) -> RuntimeView {
    let waiting = match (source, res) {
        (Source::Discord, Err(FailureView::Later(seconds))) => rt.with_state(
            StateView { discord_retry_at: later(time, seconds as nat), ..rt.state },
        ),
        _ => rt,
    };
    noted(waiting, source_name(source), res)
}

/// How looking for new work goes on: each source in turn, whatever came of the others, and then
/// the state is kept.
pub open spec fn poll_step(
    rt: RuntimeView,
    time: u64,
    stage: PollStage,
    res: Result<(), FailureView>,
) -> (RuntimeView, PollStage, PollNeedView) {
    match stage {
        PollStage::Looking(source) => {
            let now = looked(rt, source, res, time);
            match source {
                Source::Email => (
                    now,
                    PollStage::Looking(Source::Papers),
                    PollNeedView::Discover(Source::Papers),
                ),
                Source::Papers => (
                    now,
                    PollStage::Looking(Source::Discord),
                    PollNeedView::Discover(Source::Discord),
                ),
                Source::Discord => (now, PollStage::Saving, PollNeedView::Save),
            }
        },
        PollStage::Saving => (rt, PollStage::Finished, PollNeedView::Finish(res)),
        PollStage::Finished => (
            rt,
            PollStage::Finished,
            PollNeedView::Finish(Err(FailureView::Refused(ErrorView::Unexpected))),
        ),
    }
}

impl Runtime {
    /// Begins to look for new work, without doing any; useful for ingestion diagnostics.
    pub fn poll_sources() -> (res: (PollStage, PollNeed))
        ensures
            (res.0, res.1@) == (
                PollStage::Looking(Source::Email),
                PollNeedView::Discover(Source::Email),
            ),
    {
        (PollStage::Looking(Source::Email), PollNeed::Discover(Source::Email))
    }

    /// Goes on to look for new work after `res`.
    pub fn poll_on(&mut self, time: u64, stage: PollStage, res: Result<(), Failure>) -> (out: (
        PollStage,
        PollNeed,
    ))
        ensures
            (final(self)@, out.0, out.1@) == poll_step(old(self)@, time, stage, told(res)),
            final(self).config == old(self).config,
    {
        match stage {
            PollStage::Looking(source) => {
                if source == Source::Discord {
                    if let Err(failure) = &res {
                        if let Failure::Later(retry) = failure {
                            self.state.discord_retry_at = time.saturating_add(retry.0);
                        }
                    }
                }
                match source {
                    Source::Email => {
                        self.note("email", res);
                        (PollStage::Looking(Source::Papers), PollNeed::Discover(Source::Papers))
                    },
                    Source::Papers => {
                        self.note("papers", res);
                        (PollStage::Looking(Source::Discord), PollNeed::Discover(Source::Discord))
                    },
                    Source::Discord => {
                        self.note("discord", res);
                        (PollStage::Saving, PollNeed::Save)
                    },
                }
            },
            PollStage::Saving => (PollStage::Finished, PollNeed::Finish(res)),
            PollStage::Finished => (
                PollStage::Finished,
                PollNeed::Finish(Err(Failure::Refused(Error::Unexpected))),
            ),
        }
    }
}

} // verus!
