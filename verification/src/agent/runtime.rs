//! The agent's state and the rules that its steps share.
//!
//! Every step is a function of the state and of what came of the step before: the rules decide
//! what is to be done next, and the caller does it and reports.
use crate::agent::config::{AgentVoice, Command, CommandView};
use crate::agent::daemon::Controls;
use crate::agent::state::{
    announced, announcement_view, announcement_views, announcements_document, announcements_json,
    announces, done, done_jobs, drop_jobs, find_job, is_announced, job_views, jobs_document,
    jobs_json, known, loaded, others, push_announcement, push_job, replace_job, replaced,
    Announcement, AnnouncementView, Job, JobView, State, StateView, Status, Work, WorkView,
};
use crate::base::config::{config_fault, Config};
use crate::error::{seen, Error, ErrorView};
use crate::failure::{told, Failure, FailureView};
use crate::json::{Json, JsonView};
use crate::table::{entry_views, Table};
use crate::text::{
    after, begins, blank, byte_len, chars_of, ends, ends_with, folded, is_white, law_stripped_end,
    law_stripped_start, law_trimmed, lemma_lowered, lemma_white_folded, lowercase, lowered, same,
    same_letters, size, stands_at, starts_with, starts_with_letters, string_of, strip_end, strip_start,
    stripped_end, stripped_start, trim, trimmed, until, white,
};
use vstd::prelude::*;

verus! {

/// The agent.
#[derive(Debug)]
pub struct Runtime {
    pub config: Config,
    pub state: State,
    pub stopped: bool,
    pub controls: Controls,
    /// A directory of the mailbox is open.
    pub mail_open: bool,
    /// Which directory of the mailbox comes next.
    pub mail_directory: usize,
    /// The store is being read for papers.
    pub paper_open: bool,
}

pub struct RuntimeView {
    pub state: StateView,
    pub stopped: bool,
    pub controls: Controls,
    pub mail_open: bool,
    pub mail_directory: usize,
    pub paper_open: bool,
}

impl View for Runtime {
    type V = RuntimeView;

    open spec fn view(&self) -> RuntimeView {
        RuntimeView {
            state: self.state@,
            stopped: self.stopped,
            controls: self.controls,
            mail_open: self.mail_open,
            mail_directory: self.mail_directory,
            paper_open: self.paper_open,
        }
    }
}

impl RuntimeView {
    /// The agent with another state.
    pub open spec fn with_state(self, state: StateView) -> RuntimeView {
        RuntimeView { state, ..self }
    }

    /// The agent with other jobs.
    pub open spec fn with_jobs(self, jobs: Seq<JobView>) -> RuntimeView {
        self.with_state(StateView { jobs, ..self.state })
    }
}

/// The object that keeps a finished job.
pub open spec fn activity(id: Seq<char>) -> Seq<char> {
    "activity-"@ + id + ".json"@
}

/// The object that keeps a finished job.
pub fn activity_name(id: &str) -> (res: String)
    ensures
        res@ == activity(id@),
{
    let mut out = "activity-".to_owned();
    out.append(id);
    out.append(".json");
    out
}

// ---------------------------------------------------------------------------
// Starting

/// The agent at a start.
pub open spec fn started(state: StateView) -> RuntimeView {
    RuntimeView {
        state,
        stopped: false,
        controls: Controls { paused: state.paused, away: state.away, stop: false },
        mail_open: false,
        mail_directory: 0,
        paper_open: false,
    }
}

impl Runtime {
    /// The agent at a start, from its settings and the state that was kept.
    pub fn new(config: Config, kept: Option<State>) -> (res: Result<Runtime, Error>)
        ensures
            ({
                let before = loaded(
                    match kept {
                        Some(state) => Some(state@),
                        None => None,
                    },
                    config.agent.discord.away,
                );
                match res {
                    Ok(runtime) => {
                        &&& config_fault(config) is None
                        &&& before is Ok
                        &&& runtime.config == config
                        &&& runtime@ == started(before->Ok_0)
                    },
                    Err(error) => {
                        ||| config_fault(config) == Some(error@)
                        ||| config_fault(config) is None && before == Err::<StateView, ErrorView>(
                            error@,
                        )
                    },
                }
            }),
    {
        match config.validate() {
            Err(error) => {
                return Err(error);
            },
            Ok(()) => {},
        }
        match State::load(kept, config.agent.discord.away) {
            Err(error) => Err(error),
            Ok(state) => {
                let controls = Controls::new(state.paused, state.away);
                Ok(
                    Runtime {
                        config,
                        state,
                        stopped: false,
                        controls,
                        mail_open: false,
                        mail_directory: 0,
                        paper_open: false,
                    },
                )
            },
        }
    }

    /// Takes over what the user has asked of the running process.
    pub fn set_controls(&mut self, controls: Controls)
        ensures
            final(self)@ == (RuntimeView { controls, ..old(self)@ }),
            final(self).config == old(self).config,
    {
        self.controls = controls;
    }
}

// ---------------------------------------------------------------------------
// The queue

/// What comes of offering work: nothing where it is known already, a refusal where the queue is
/// full, and otherwise a new job at its end.
pub open spec fn enqueued(
    max_jobs: nat,
    rt: RuntimeView,
    id: Seq<char>,
    work: WorkView,
    time: u64,
    archived: bool,
) -> (RuntimeView, Result<bool, ErrorView>) {
    if archived || known(rt.state.jobs, id) {
        (rt, Ok(false))
    } else if rt.state.jobs.len() >= max_jobs {
        (rt, Err(ErrorView::QueueFull))
    } else {
        (rt.with_jobs(rt.state.jobs.push(JobView::fresh(id, work, time))), Ok(true))
    }
}

/// The agent with `job` as it stands now.
pub open spec fn checkpointed(rt: RuntimeView, job: JobView) -> RuntimeView {
    rt.with_jobs(replaced(rt.state.jobs, job))
}

/// The agent when a finished job was kept: it leaves the queue and joins the thirty last.
pub open spec fn archived_in(rt: RuntimeView, job: JobView) -> RuntimeView {
    let recent = others(rt.state.recent, job.id).push(job);
    rt.with_state(
        StateView {
            jobs: others(rt.state.jobs, job.id),
            recent: if recent.len() > 30 {
                recent.drop_first()
            } else {
                recent
            },
            ..rt.state
        },
    )
}

impl Runtime {
    /// Offers work to the queue; `archived` says whether a finished job of that identity is kept.
    ///
    /// A new job is to be kept at once.
    pub fn enqueue(&mut self, id: String, work: Work, time: u64, archived: bool) -> (res: Result<
        bool,
        Error,
    >)
        ensures
            (final(self)@, seen(res)) == enqueued(
                old(self).config.agent.max_jobs as nat,
                old(self)@,
                id@,
                work@,
                time,
                archived,
            ),
            final(self).config == old(self).config,
    {
        if archived || find_job(&self.state.jobs, id.as_str()).is_some() {
            return Ok(false);
        }
        if self.state.jobs.len() >= self.config.agent.max_jobs {
            return Err(Error::QueueFull);
        }
        push_job(&mut self.state.jobs, Job::new(id, work, time));
        Ok(true)
    }

    /// Takes over `job` as it stands now.
    pub fn checkpoint(&mut self, job: &Job)
        ensures
            final(self)@ == checkpointed(old(self)@, job@),
            final(self).config == old(self).config,
    {
        replace_job(&mut self.state.jobs, job.clone());
    }

    /// Takes a job that was kept out of the queue.
    fn archive(&mut self, job: Job)
        ensures
            final(self)@ == archived_in(old(self)@, job@),
            final(self).config == old(self).config,
    {
        drop_jobs(&mut self.state.jobs, job.id.as_str());
        drop_jobs(&mut self.state.recent, job.id.as_str());
        push_job(&mut self.state.recent, job);
        if self.state.recent.len() > 30 {
            let ghost before = self.state.recent@;
            let _ = self.state.recent.remove(0);
            assert(job_views(self.state.recent@) =~= job_views(before).drop_first());
        }
    }
}

// ---------------------------------------------------------------------------
// Finished jobs

/// What keeping the finished jobs needs next.
#[derive(Debug)]
pub enum FilingNeed {
    /// Put this job in the store under this name, unless it is there.
    Keep { name: String, job: Job },
    Finish(Result<(), Failure>),
}

pub enum FilingNeedView {
    Keep { name: Seq<char>, job: JobView },
    Finish(Result<(), FailureView>),
}

impl View for FilingNeed {
    type V = FilingNeedView;

    open spec fn view(&self) -> FilingNeedView {
        match self {
            FilingNeed::Keep { name, job } => FilingNeedView::Keep { name: name@, job: job@ },
            FilingNeed::Finish(res) => FilingNeedView::Finish(told(*res)),
        }
    }
}

/// The agent, the finished jobs that are not kept yet, and what is needed next.
pub struct FilingTurn {
    pub rt: RuntimeView,
    pub rest: Seq<JobView>,
    pub need: FilingNeedView,
}

/// How the finished jobs are kept, one after the other.
pub open spec fn filing(rt: RuntimeView, rest: Seq<JobView>) -> FilingTurn {
    FilingTurn {
        rt,
        rest,
        need: if rest.len() == 0 {
            FilingNeedView::Finish(Ok(()))
        } else {
            FilingNeedView::Keep { name: activity(rest[0].id), job: rest[0] }
        },
    }
}

/// How keeping goes on: a job leaves the queue once it is kept, and a job that cannot be kept
/// stays in the queue with those behind it.
pub open spec fn filing_step(
    rt: RuntimeView,
    rest: Seq<JobView>,
    res: Result<(), FailureView>,
) -> FilingTurn {
    match res {
        Err(failure) => FilingTurn { rt, rest, need: FilingNeedView::Finish(Err(failure)) },
        Ok(_) => if rest.len() == 0 {
            filing(rt, rest)
        } else {
            filing(archived_in(rt, rest[0]), rest.drop_first())
        },
    }
}

/// Finished jobs that are not kept yet.
#[derive(Debug)]
pub struct Filing {
    pub rest: Vec<Job>,
}

impl Filing {
    fn need(&self) -> (res: FilingNeed)
        ensures
            forall|rt: RuntimeView|
                #![trigger filing(rt, job_views(self.rest@))]
                filing(rt, job_views(self.rest@)).need == res@,
    {
        if self.rest.len() == 0 {
            FilingNeed::Finish(Ok(()))
        } else {
            let job = self.rest[0].clone();
            assert(job_views(self.rest@)[0] == job@);
            FilingNeed::Keep { name: activity_name(job.id.as_str()), job }
        }
    }
}

impl Runtime {
    /// Begins to keep the jobs that are done.
    pub fn archive_done(&self) -> (res: (Filing, FilingNeed))
        ensures
            (FilingTurn { rt: self@, rest: job_views(res.0.rest@), need: res.1@ }) == filing(
                self@,
                done(self@.state.jobs),
            ),
    {
        let filing = Filing { rest: done_jobs(&self.state.jobs) };
        let need = filing.need();
        (filing, need)
    }

    /// Goes on to keep the jobs that are done.
    pub fn archive_on(&mut self, filing: Filing, res: Result<(), Failure>) -> (out: (
        Filing,
        FilingNeed,
    ))
        ensures
            (FilingTurn { rt: final(self)@, rest: job_views(out.0.rest@), need: out.1@ })
                == filing_step(old(self)@, job_views(filing.rest@), told(res)),
            final(self).config == old(self).config,
    {
        match res {
            Err(failure) => (filing, FilingNeed::Finish(Err(failure))),
            Ok(()) => {
                let mut filing = filing;
                if filing.rest.len() > 0 {
                    let ghost before = filing.rest@;
                    let job = filing.rest.remove(0);
                    assert(job_views(filing.rest@) =~= job_views(before).drop_first());
                    assert(job_views(before)[0] == job@);
                    self.archive(job);
                }
                let need = filing.need();
                (filing, need)
            },
        }
    }
}

// ---------------------------------------------------------------------------
// Model calls

/// The calls that a job of this kind may use up: some are kept for email.
pub open spec fn ceiling(config: Config, work: WorkView) -> nat {
    if work is Email {
        config.agent.daily_model_calls as nat
    } else if config.agent.daily_model_calls >= config.agent.reserved_email_calls {
        (config.agent.daily_model_calls - config.agent.reserved_email_calls) as nat
    } else {
        0
    }
}

/// The tokens that a call may take: the bytes of its text are a deliberately conservative bound.
pub open spec fn reserved(config: Config, instruction: nat, data: nat) -> nat {
    let most = instruction + data + 512 + config.limits.max_output_tokens as nat;
    if most > usize::MAX {
        usize::MAX as nat
    } else {
        most
    }
}

/// The agent, its job, and whether a model call may be made.
pub struct Admission {
    pub rt: RuntimeView,
    pub job: JobView,
    pub res: Result<(), FailureView>,
}

/// What comes of a wish to call a model: a call is charged to the day and to the job before it is
/// made, and refused where either is used up.
pub open spec fn admitted(
    config: Config,
    rt: RuntimeView,
    job: JobView,
    instruction: Seq<char>,
    data: Seq<char>,
    time: u64,
) -> Admission {
    if rt.controls.stop {
        Admission { rt, job, res: Err(FailureView::Review("shutdown requested before model call"@)) }
    } else if job.calls >= config.agent.max_calls_per_job {
        Admission {
            rt,
            job,
            res: Err(
                FailureView::Review(
                    "model call limit reached for this job; inspect before retrying"@,
                ),
            ),
        }
    } else {
        let state = rt.state.on_day(time);
        let tokens = reserved(config, size(instruction), size(data));
        if state.model_calls >= ceiling(config, job.work) || state.token_reservations + tokens
            > config.agent.daily_token_budget {
            Admission { rt: rt.with_state(state), job, res: Err(FailureView::Budget) }
        } else {
            let charged = JobView { calls: (job.calls + 1) as usize, ..job };
            Admission {
                rt: checkpointed(
                    rt.with_state(
                        StateView {
                            model_calls: (state.model_calls + 1) as usize,
                            token_reservations: (state.token_reservations + tokens) as usize,
                            ..state
                        },
                    ),
                    charged,
                ),
                job: charged,
                res: Ok(()),
            }
        }
    }
}

impl Runtime {
    /// Charges a model call to the day and to the job, or says why it may not be made.
    pub fn ask(&mut self, job: &mut Job, instruction: &str, data: &str, time: u64) -> (res: Result<
        (),
        Failure,
    >)
        ensures
            (Admission { rt: final(self)@, job: final(job)@, res: told(res) }) == admitted(
                old(self).config,
                old(self)@,
                old(job)@,
                instruction@,
                data@,
                time,
            ),
            final(self).config == old(self).config,
    {
        if self.controls.stop {
            return Err(Failure::Review("shutdown requested before model call".to_owned()));
        }
        if job.calls >= self.config.agent.max_calls_per_job {
            return Err(
                Failure::Review(
                    "model call limit reached for this job; inspect before retrying".to_owned(),
                ),
            );
        }
        self.state.reset_budget(time);
        let email = match &job.work {
            Work::Email { .. } => true,
            _ => false,
        };
        let agent = &self.config.agent;
        let ceiling: usize = if email {
            agent.daily_model_calls
        } else if agent.daily_model_calls >= agent.reserved_email_calls {
            agent.daily_model_calls - agent.reserved_email_calls
        } else {
            0
        };
        let reservation: usize = byte_len(instruction).saturating_add(
            byte_len(data),
        ).saturating_add(512).saturating_add(self.config.limits.max_output_tokens as usize);
        assert(reservation == reserved(self.config, size(instruction@), size(data@)));
        if self.state.model_calls >= ceiling || self.state.token_reservations.saturating_add(
            reservation,
        ) > self.config.agent.daily_token_budget || self.state.token_reservations > usize::MAX
            - reservation {
            return Err(Failure::Budget);
        }
        self.state.model_calls = self.state.model_calls + 1;
        self.state.token_reservations = self.state.token_reservations + reservation;
        job.calls = job.calls + 1;
        self.checkpoint(job);
        Ok(())
    }
}

// ---------------------------------------------------------------------------
// Announcements

/// The agent with something to say about a job, once for each job.
pub open spec fn announcing(
    rt: RuntimeView,
    id: Seq<char>,
    text: Seq<char>,
    detail: Seq<char>,
    urgent: bool,
) -> RuntimeView {
    if announces(rt.state.announcements, id) {
        rt
    } else {
        rt.with_state(
            StateView {
                announcements: announced(
                    rt.state.announcements,
                    AnnouncementView { id, text, detail, urgent },
                ),
                ..rt.state
            },
        )
    }
}

/// The hour belongs to the quiet hours, which may pass midnight.
pub open spec fn quiet(voice: AgentVoice, time: u64) -> bool {
    match (voice.quiet_start_utc, voice.quiet_end_utc) {
        (Some(start), Some(end)) => {
            let hour = (time as int) / 3600 % 24;
            if start < end {
                start <= hour < end
            } else {
                start <= hour || hour < end
            }
        },
        _ => false,
    }
}

/// The place of the first announcement that may be spoken, or the number of announcements where
/// there is none.
pub open spec fn next_spoken(list: Seq<AnnouncementView>, quiet: bool) -> nat
    decreases list.len(),
{
    if list.len() == 0 || !quiet || list[0].urgent {
        0
    } else {
        1 + next_spoken(list.drop_first(), quiet)
    }
}

/// What is spoken next, and the agent without it.
pub open spec fn spoken(config: Config, rt: RuntimeView, time: u64) -> (
    RuntimeView,
    Option<AnnouncementView>,
) {
    let list = rt.state.announcements;
    let at = next_spoken(list, quiet(config.agent.voice, time));
    if rt.state.paused || !config.voice.enabled || at >= list.len() {
        (rt, None)
    } else {
        (
            rt.with_state(
                StateView {
                    announcements: list.remove(at as int),
                    last_spoken: Some(list[at as int]),
                    ..rt.state
                },
            ),
            Some(list[at as int]),
        )
    }
}

fn is_quiet(voice: &AgentVoice, time: u64) -> (res: bool)
    ensures
        res == quiet(*voice, time),
{
    match (voice.quiet_start_utc, voice.quiet_end_utc) {
        (Some(start), Some(end)) => {
            let hour: u64 = time / 3600 % 24;
            if start < end {
                start as u64 <= hour && hour < end as u64
            } else {
                start as u64 <= hour || hour < end as u64
            }
        },
        _ => false,
    }
}

impl Runtime {
    /// Has something to say about a job, once for each job.
    pub fn announce(&mut self, id: &str, text: String, detail: String, urgent: bool)
        ensures
            final(self)@ == announcing(old(self)@, id@, text@, detail@, urgent),
            final(self).config == old(self).config,
    {
        if is_announced(&self.state.announcements, id) {
            return;
        }
        let item = Announcement { id: id.to_owned(), text, detail, urgent };
        push_announcement(&mut self.state.announcements, item);
    }

    /// Takes what is spoken next. The state is to be kept before it is spoken, so that nothing is
    /// spoken twice.
    pub fn take_announcement(&mut self, time: u64) -> (res: Option<Announcement>)
        ensures
            (final(self)@, announcement_view(res)) == spoken(old(self).config, old(self)@, time),
            final(self).config == old(self).config,
    {
        let quiet = is_quiet(&self.config.agent.voice, time);
        if self.state.paused || !self.config.voice.enabled {
            return None;
        }
        let ghost all = announcement_views(self.state.announcements@);
        let mut i: usize = 0;
        assert(all.skip(0) =~= all);
        while i < self.state.announcements.len() && quiet && !self.state.announcements[i].urgent
            invariant
                *self == *old(self),
                i <= self.state.announcements.len(),
                all == announcement_views(self.state.announcements@),
                next_spoken(all, quiet) == i + next_spoken(all.skip(i as int), quiet),
            decreases self.state.announcements.len() - i,
        {
            assert(all.skip(i as int)[0] == self.state.announcements@[i as int]@);
            assert(all.skip(i as int).drop_first() =~= all.skip(i + 1));
            i = i + 1;
        }
        if i < self.state.announcements.len() {
            assert(all.skip(i as int)[0] == self.state.announcements@[i as int]@);
            let ghost before = self.state.announcements@;
            let item = self.state.announcements.remove(i);
            assert(announcement_views(self.state.announcements@) =~= all.remove(i as int));
            self.state.last_spoken = Some(item.clone());
            Some(item)
        } else {
            None
        }
    }
}

// ---------------------------------------------------------------------------
// Status

/// The entries of a table as an object.
pub open spec fn table_json(entries: Seq<(Seq<char>, Seq<char>)>) -> JsonView
    decreases entries.len(),
{
    if entries.len() == 0 {
        JsonView::object()
    } else {
        table_json(entries.drop_last()).with(
            entries.last().0,
            JsonView::Text(entries.last().1),
        )
    }
}

fn table_document(table: &Table<String>) -> (res: Json)
    ensures
        res@ == table_json(table@),
{
    let ghost all = table@;
    let mut out = Json::object();
    let mut i: usize = 0;
    assert(all.take(0) =~= Seq::empty());
    while i < table.entries.len()
        invariant
            i <= table.entries.len(),
            all == entry_views(table.entries@),
            out@ == table_json(all.take(i as int)),
        decreases table.entries.len() - i,
    {
        assert(all.take(i + 1).drop_last() =~= all.take(i as int));
        let entry = &table.entries[i];
        assert(all.take(i + 1).last() == (entry.0@, entry.1@));
        out = out.with(entry.0.as_str(), Json::string(entry.1.as_str()));
        i = i + 1;
    }
    assert(all.take(i as int) =~= all);
    out
}

/// What the agent tells of itself.
#[verifier::opaque]
pub open spec fn status_json(state: StateView) -> JsonView {
    JsonView::object().with("announcements"@, announcements_json(state.announcements)).with(
        "away"@,
        JsonView::Bool(state.away),
    ).with("connector_errors"@, table_json(state.connector_errors)).with(
        "jobs"@,
        jobs_json(state.jobs),
    ).with("model_calls_today"@, JsonView::number(state.model_calls as nat)).with(
        "next_rundown"@,
        JsonView::number(state.next_rundown as nat),
    ).with("paused"@, JsonView::Bool(state.paused)).with("recent"@, jobs_json(state.recent)).with(
        "reserved_tokens_today"@,
        JsonView::number(state.token_reservations as nat),
    )
}

impl Runtime {
    /// What the agent tells of itself.
    pub fn status(&self) -> (res: Json)
        ensures
            res@ == status_json(self@.state),
    {
        proof {
            reveal(status_json);
        }
        let state = &self.state;
        Json::object().with("announcements", announcements_document(&state.announcements)).with(
            "away",
            Json::Bool(state.away),
        ).with("connector_errors", table_document(&state.connector_errors)).with(
            "jobs",
            jobs_document(&state.jobs),
        ).with("model_calls_today", Json::number(state.model_calls as u64)).with(
            "next_rundown",
            Json::number(state.next_rundown),
        ).with("paused", Json::Bool(state.paused)).with("recent", jobs_document(&state.recent)).with(
            "reserved_tokens_today",
            Json::number(state.token_reservations as u64),
        )
    }
}

// ---------------------------------------------------------------------------
// Texts

/// The text inside the fence that a model may put around a document.
pub open spec fn unfenced(answer: Seq<char>) -> Seq<char> {
    let text = trimmed(answer);
    let inside = if begins(text, "```json"@) {
        Some(text.skip(7))
    } else if begins(text, "```"@) {
        Some(text.skip(3))
    } else {
        None
    };
    match inside {
        Some(inside) => if ends(inside, "```"@) {
            trimmed(inside.take(inside.len() - 3))
        } else {
            trimmed(text)
        },
        None => trimmed(text),
    }
}

/// The text of the document in a model's answer.
pub fn structured(text: &str) -> (res: String)
    ensures
        res@ == unfenced(text@),
{
    proof {
        reveal_strlit("```json");
        reveal_strlit("```");
    }
    let text = trim(text);
    let inside = if starts_with(text.as_str(), "```json") {
        Some(after(text.as_str(), "```json"))
    } else if starts_with(text.as_str(), "```") {
        Some(after(text.as_str(), "```"))
    } else {
        None
    };
    match inside {
        Some(inside) => if ends_with(inside.as_str(), "```") {
            trim(until(inside.as_str(), "```").as_str())
        } else {
            trim(text.as_str())
        },
        None => trim(text.as_str()),
    }
}

/// What stands behind the first `n` characters.
pub open spec fn behind(s: Seq<char>, n: nat) -> Seq<char> {
    if s.len() <= n {
        Seq::empty()
    } else {
        s.skip(n as int)
    }
}

fn rest_behind(text: &str, n: usize) -> (res: String)
    ensures
        res@ == behind(text@, n as nat),
{
    let v = chars_of(text);
    if v.len() <= n {
        let res = string_of(&v, 0, 0);
        assert(res@ =~= Seq::empty());
        res
    } else {
        let res = string_of(&v, n, v.len());
        assert(res@ =~= text@.skip(n as int));
        res
    }
}

/// What was said behind the wake phrase, if it was said to the agent.
pub open spec fn addressed(transcript: Seq<char>, wake_phrase: Seq<char>) -> Option<Seq<char>> {
    let text = trimmed(transcript);
    let n = wake_phrase.len() as int;
    if n == 0 {
        Some(text)
    } else if n < text.len() && same_letters(text.take(n), wake_phrase) && (white(text[n])
        || text[n] == ',' || text[n] == ':') {
        Some(stripped_start(text.skip(n), ",: "@))
    } else {
        None
    }
}

/// What is compared with the known phrases.
pub open spec fn normal(text: Seq<char>) -> Seq<char> {
    lowered(stripped_end(text, ".!?"@))
}

/// The command that words mean whose normal form is `normalized`.
pub open spec fn understood(text: Seq<char>, normalized: Seq<char>) -> CommandView {
    if normalized == "pause"@ || normalized == "pause activity"@ {
        CommandView::Pause
    } else if normalized == "resume"@ || normalized == "resume activity"@ {
        CommandView::Resume
    } else if normalized == "i'm away"@ || normalized == "i am away"@ || normalized
        == "away mode on"@ {
        CommandView::Away { enabled: true }
    } else if normalized == "i'm back"@ || normalized == "i am back"@ || normalized
        == "away mode off"@ {
        CommandView::Away { enabled: false }
    } else if normalized == "status"@ || normalized == "what happened"@ {
        CommandView::Status
    } else if normalized == "run down"@ || normalized == "rundown"@ || normalized
        == "check everything"@ {
        CommandView::Rundown
    } else if normalized == "read it"@ || normalized == "read that"@ {
        CommandView::ReadLast
    } else if normalized == "why"@ || normalized == "why is it important"@ {
        CommandView::Why
    } else if normalized == "stop"@ || normalized == "shutdown"@ {
        CommandView::Stop
    } else if begins(normalized, "research "@) {
        CommandView::Research { query: trimmed(behind(text, 9)) }
    } else if begins(normalized, "find papers about "@) {
        CommandView::Research { query: trimmed(behind(text, 18)) }
    } else if normalized == "undo that"@ {
        CommandView::UndoLast
    } else if normalized == "listen"@ {
        CommandView::Listen
    } else if normalized == "summarize discord"@ {
        CommandView::SummarizeDiscord { channel: None }
    } else {
        CommandView::Ask { text }
    }
}

/// The command that words mean whose normal form is `normalized`.
pub fn understand(text: &str, normalized: &str) -> (res: Command)
    ensures
        res@ == understood(text@, normalized@),
{
    let n = normalized;
    if same(n, "pause") || same(n, "pause activity") {
        Command::Pause
    } else if same(n, "resume") || same(n, "resume activity") {
        Command::Resume
    } else if same(n, "i'm away") || same(n, "i am away") || same(n, "away mode on") {
        Command::Away { enabled: true }
    } else if same(n, "i'm back") || same(n, "i am back") || same(n, "away mode off") {
        Command::Away { enabled: false }
    } else if same(n, "status") || same(n, "what happened") {
        Command::Status
    } else if same(n, "run down") || same(n, "rundown") || same(n, "check everything") {
        Command::Rundown
    } else if same(n, "read it") || same(n, "read that") {
        Command::ReadLast
    } else if same(n, "why") || same(n, "why is it important") {
        Command::Why
    } else if same(n, "stop") || same(n, "shutdown") {
        Command::Stop
    } else if starts_with(n, "research ") {
        Command::Research { query: trim(rest_behind(text, 9).as_str()) }
    } else if starts_with(n, "find papers about ") {
        Command::Research { query: trim(rest_behind(text, 18).as_str()) }
    } else if same(n, "undo that") {
        Command::UndoLast
    } else if same(n, "listen") {
        Command::Listen
    } else if same(n, "summarize discord") {
        Command::SummarizeDiscord { channel: None }
    } else {
        Command::Ask { text: text.to_owned() }
    }
}

/// What was said behind the wake phrase, if it was said to the agent.
pub fn address(transcript: &str, wake_phrase: &str) -> (res: Option<String>)
    ensures
        (match res {
            Some(text) => Some(text@),
            None => None,
        }) == addressed(transcript@, wake_phrase@),
{
    let text = trim(transcript);
    let phrase = chars_of(wake_phrase);
    if phrase.len() == 0 {
        return Some(text);
    }
    let v = chars_of(text.as_str());
    if !(phrase.len() < v.len() && starts_with_letters(text.as_str(), wake_phrase)) {
        return None;
    }
    let next = v[phrase.len()];
    if !(is_white(next) || next == ',' || next == ':') {
        return None;
    }
    let remainder = string_of(&v, phrase.len(), v.len());
    assert(remainder@ =~= text@.skip(wake_phrase@.len() as int));
    Some(strip_start(remainder.as_str(), ",: "))
}

/// Deterministic control intents are never interpreted as paths or shell commands.
pub fn voice_command(transcript: &str, wake_phrase: &str) -> (res: Option<Command>)
    ensures
        (match res {
            Some(command) => Some(command@),
            None => None,
        }) == (match addressed(transcript@, wake_phrase@) {
            Some(text) => Some(understood(text, normal(text))),
            None => None,
        }),
{
    match address(transcript, wake_phrase) {
        None => None,
        Some(text) => {
            let normalized = lowercase(strip_end(text.as_str(), ".!?").as_str());
            Some(understand(text.as_str(), normalized.as_str()))
        },
    }
}

/// A small Latin letter, a space or an apostrophe.
pub open spec fn phrase_char(c: char) -> bool {
    'a' <= c <= 'z' || c == ' ' || c == '\''
}

/// The phrases of a command.
pub open spec fn phrases(command: CommandView) -> Seq<Seq<char>> {
    match command {
        CommandView::Pause => seq!["pause"@, "pause activity"@],
        CommandView::Resume => seq!["resume"@, "resume activity"@],
        CommandView::Away { enabled: true } => seq!["i'm away"@, "i am away"@, "away mode on"@],
        CommandView::Away { enabled: false } => seq!["i'm back"@, "i am back"@, "away mode off"@],
        CommandView::Status => seq!["status"@, "what happened"@],
        CommandView::Rundown => seq!["run down"@, "rundown"@, "check everything"@],
        CommandView::ReadLast => seq!["read it"@, "read that"@],
        CommandView::Why => seq!["why"@, "why is it important"@],
        CommandView::Stop => seq!["stop"@, "shutdown"@],
        CommandView::UndoLast => seq!["undo that"@],
        CommandView::Listen => seq!["listen"@],
        CommandView::SummarizeDiscord { channel: None } => seq!["summarize discord"@],
        _ => Seq::empty(),
    }
}

/// Each of the phrases of a command is that command.
pub proof fn law_known_phrases(command: CommandView, i: int)
    requires
        0 <= i < phrases(command).len(),
    ensures
        understood(phrases(command)[i], phrases(command)[i]) == command,
{
    let phrase = phrases(command)[i];
    reveal_strlit("pause");
    reveal_strlit("pause activity");
    reveal_strlit("resume");
    reveal_strlit("resume activity");
    reveal_strlit("i'm away");
    reveal_strlit("i am away");
    reveal_strlit("away mode on");
    reveal_strlit("i'm back");
    reveal_strlit("i am back");
    reveal_strlit("away mode off");
    reveal_strlit("status");
    reveal_strlit("what happened");
    reveal_strlit("run down");
    reveal_strlit("rundown");
    reveal_strlit("check everything");
    reveal_strlit("read it");
    reveal_strlit("read that");
    reveal_strlit("why");
    reveal_strlit("why is it important");
    reveal_strlit("stop");
    reveal_strlit("shutdown");
    reveal_strlit("undo that");
    reveal_strlit("listen");
    reveal_strlit("summarize discord");
    reveal_strlit("research ");
    reveal_strlit("find papers about ");
    assert("pause"@.len() == 5);
    assert("pause activity"@.len() == 14);
    assert("resume"@.len() == 6 && "resume"@[0] == 'r');
    assert("resume activity"@.len() == 15);
    assert("i'm away"@.len() == 8 && "i'm away"@[0] == 'i' && "i'm away"@[4] == 'a');
    assert("i am away"@.len() == 9 && "i am away"@[0] == 'i' && "i am away"@[5] == 'a');
    assert("away mode on"@.len() == 12);
    assert("i'm back"@.len() == 8 && "i'm back"@[0] == 'i' && "i'm back"@[4] == 'b');
    assert("i am back"@.len() == 9 && "i am back"@[0] == 'i' && "i am back"@[5] == 'b');
    assert("away mode off"@.len() == 13 && "away mode off"@[0] == 'a');
    assert("status"@.len() == 6 && "status"@[0] == 's');
    assert("what happened"@.len() == 13 && "what happened"@[0] == 'w');
    assert("run down"@.len() == 8 && "run down"@[0] == 'r');
    assert("rundown"@.len() == 7 && "rundown"@[1] == 'u');
    assert("check everything"@.len() == 16);
    assert("read it"@.len() == 7 && "read it"@[1] == 'e');
    assert("read that"@.len() == 9 && "read that"@[0] == 'r');
    assert("why"@.len() == 3);
    assert("why is it important"@.len() == 19);
    assert("stop"@.len() == 4);
    assert("shutdown"@.len() == 8 && "shutdown"@[0] == 's');
    assert("undo that"@.len() == 9 && "undo that"@[0] == 'u');
    assert("listen"@.len() == 6 && "listen"@[0] == 'l');
    assert("summarize discord"@.len() == 17 && "summarize discord"@[0] == 's');
    if begins(phrase, "research "@) {
        assert(phrase[0] == phrase.subrange(0, 9)[0] && "research "@[0] == 'r');
    }
    if begins(phrase, "find papers about "@) {
        assert(phrase[0] == phrase.subrange(0, 18)[0] && "find papers about "@[0] == 'f');
    }
}

/// The phrases are of small letters, and begin and end with one.
proof fn lemma_phrase(command: CommandView, i: int)
    requires
        0 <= i < phrases(command).len(),
    ensures
        ({
            let phrase = phrases(command)[i];
            &&& phrase.len() > 0
            &&& 'a' <= phrase[0] <= 'z'
            &&& 'a' <= phrase.last() <= 'z'
            &&& forall|k: int| 0 <= k < phrase.len() ==> phrase_char(#[trigger] phrase[k])
        }),
{
    reveal_strlit("pause");
    reveal_strlit("pause activity");
    reveal_strlit("resume");
    reveal_strlit("resume activity");
    reveal_strlit("i'm away");
    reveal_strlit("i am away");
    reveal_strlit("away mode on");
    reveal_strlit("i'm back");
    reveal_strlit("i am back");
    reveal_strlit("away mode off");
    reveal_strlit("status");
    reveal_strlit("what happened");
    reveal_strlit("run down");
    reveal_strlit("rundown");
    reveal_strlit("check everything");
    reveal_strlit("read it");
    reveal_strlit("read that");
    reveal_strlit("why");
    reveal_strlit("why is it important");
    reveal_strlit("stop");
    reveal_strlit("shutdown");
    reveal_strlit("undo that");
    reveal_strlit("listen");
    reveal_strlit("summarize discord");
}

/// A known phrase is its command however it is said: in letters of either case, with marks behind
/// it, with white space around it, and behind the wake phrase where there is one. It is never a
/// question to the model.
pub proof fn law_spoken_phrase(
    before: Seq<char>,
    call: Seq<char>,
    gap: Seq<char>,
    said: Seq<char>,
    marks: Seq<char>,
    after: Seq<char>,
    wake_phrase: Seq<char>,
    command: CommandView,
    i: int,
)
    requires
        0 <= i < phrases(command).len(),
        same_letters(said, phrases(command)[i]),
        blank(before),
        blank(after),
        forall|k: int| 0 <= k < marks.len() ==> ".!?"@.contains(#[trigger] marks[k]),
        same_letters(call, wake_phrase),
        wake_phrase.len() == 0 ==> gap.len() == 0,
        wake_phrase.len() > 0 ==> gap.len() > 0 && !white(wake_phrase[0]),
        forall|k: int| 0 <= k < gap.len() ==> ",: "@.contains(#[trigger] gap[k]),
    ensures
        ({
            let heard = addressed(before + (call + gap + said + marks) + after, wake_phrase);
            &&& heard == Some(said + marks)
            &&& understood(heard->0, normal(heard->0)) == command
            &&& command !is Ask
        }),
{
    let phrase = phrases(command)[i];
    lemma_phrase(command, i);
    law_known_phrases(command, i);
    reveal_strlit(".!?");
    reveal_strlit(",: ");
    let text = said + marks;
    let all = call + gap + said + marks;
    assert(folded(said[0]) == folded(phrase[0]));
    assert(folded(said[said.len() - 1]) == folded(phrase[phrase.len() - 1]));
    assert forall|k: int| 0 <= k < phrase.len() implies #[trigger] phrase[k] <= '\x7f' && !('A'
        <= phrase[k] <= 'Z') by {
        assert(phrase_char(phrase[k]));
    }
    assert(!white(all.last())) by {
        if marks.len() > 0 {
            assert(".!?"@.contains(marks[marks.len() - 1]));
        } else {
            lemma_white_folded(said.last(), phrase.last());
            assert(all.last() == said.last());
        }
    }
    assert(!white(all[0])) by {
        if call.len() > 0 {
            assert(folded(call[0]) == folded(wake_phrase[0]));
            lemma_white_folded(call[0], wake_phrase[0]);
            assert(all[0] == call[0]);
        } else {
            lemma_white_folded(said[0], phrase[0]);
            assert(all[0] == said[0]);
        }
    }
    law_trimmed(before, all, after);
    assert(addressed(before + all + after, wake_phrase) == Some(text)) by {
        if wake_phrase.len() == 0 {
            assert(all =~= text);
        } else {
            let n = wake_phrase.len() as int;
            assert(all.take(n) =~= call);
            assert(all[n] == gap[0]);
            assert(",: "@.contains(gap[0]));
            assert(all.skip(n) =~= gap + text);
            assert(text[0] == said[0]);
            law_stripped_start(gap, text, ",: "@);
        }
    }
    law_stripped_end(said, marks, ".!?"@);
    lemma_lowered(said, phrase);
}

/// A document in a fence is taken out of it: with blanks around the fence and inside it, and with
/// the fence marked as a document or not; without a fence it is only trimmed.
pub proof fn law_unfenced(before: Seq<char>, inside: Seq<char>, after: Seq<char>)
    requires
        blank(before),
        blank(after),
    ensures
        unfenced(before + ("```json"@ + inside + "```"@) + after) == trimmed(inside),
        !begins(inside, "json"@) ==> unfenced(before + ("```"@ + inside + "```"@) + after)
            == trimmed(inside),
        inside.len() > 0 && !white(inside[0]) && !white(inside.last()) && inside[0] != '`'
            ==> unfenced(before + inside + after) == inside,
{
    reveal_strlit("```");
    reveal_strlit("```json");
    reveal_strlit("json");
    let marked = "```json"@ + inside + "```"@;
    assert(marked[0] == '`' && marked.last() == '`');
    law_trimmed(before, marked, after);
    assert(marked.subrange(0, 7) =~= "```json"@);
    assert(marked.skip(7) =~= inside + "```"@);
    lemma_fence_ends(inside);
    let plain = "```"@ + inside + "```"@;
    assert(plain[0] == '`' && plain.last() == '`');
    law_trimmed(before, plain, after);
    assert(plain.subrange(0, 3) =~= "```"@);
    assert(plain.skip(3) =~= inside + "```"@);
    if !begins(inside, "json"@) && begins(plain, "```json"@) {
        let shown = plain.subrange(0, 7);
        assert(shown[3] == 'j' && shown[4] == 's' && shown[5] == 'o' && shown[6] == 'n');
        assert(plain[3] == 'j' && plain[4] == 's' && plain[5] == 'o' && plain[6] == 'n');
        if inside.len() >= 4 {
            assert(inside[0] == plain[3] && inside[1] == plain[4] && inside[2] == plain[5]
                && inside[3] == plain[6]);
            assert(inside.subrange(0, 4) =~= "json"@);
            assert(stands_at(inside, "json"@, 0));
        } else {
            let k = inside.len() as int;
            assert(plain[3 + k] == '`');
        }
    }
    if inside.len() > 0 && !white(inside[0]) && !white(inside.last()) && inside[0] != '`' {
        law_trimmed(before, inside, after);
        let none = Seq::<char>::empty();
        law_trimmed(none, inside, none);
        assert(none + inside + none =~= inside);
        if begins(inside, "```"@) {
            assert(inside.subrange(0, 3)[0] == '`');
        }
        if begins(inside, "```json"@) {
            assert(inside.subrange(0, 7)[0] == '`');
        }
    }
}

proof fn lemma_fence_ends(inside: Seq<char>)
    ensures
        ends(inside + "```"@, "```"@),
        (inside + "```"@).take((inside + "```"@).len() - 3) == inside,
{
    reveal_strlit("```");
    let all = inside + "```"@;
    assert(all.subrange(all.len() - 3, all.len() as int) =~= "```"@);
    assert(all.take(all.len() - 3) =~= inside);
}

/// Who calls the agent by its phrase, in letters of either case and with a blank, a comma or a colon
/// behind it, is heard with what follows; who does not is not heard. Without a phrase everyone is.
pub proof fn law_addressed(
    before: Seq<char>,
    call: Seq<char>,
    gap: Seq<char>,
    said: Seq<char>,
    after: Seq<char>,
    wake_phrase: Seq<char>,
    other: Seq<char>,
)
    requires
        blank(before),
        blank(after),
        wake_phrase.len() > 0,
        same_letters(call, wake_phrase),
        !white(wake_phrase[0]),
        gap.len() > 0,
        forall|k: int| 0 <= k < gap.len() ==> ",: "@.contains(#[trigger] gap[k]),
        said.len() > 0,
        !",: "@.contains(said[0]),
        !white(said.last()),
        other.len() > 0,
        !white(other[0]),
        !white(other.last()),
    ensures
        addressed(before + (call + gap + said) + after, wake_phrase) == Some(said),
        other.len() >= wake_phrase.len() && !same_letters(
            other.take(wake_phrase.len() as int),
            wake_phrase,
        ) ==> addressed(before + other + after, wake_phrase) is None,
        other.len() <= wake_phrase.len() ==> addressed(before + other + after, wake_phrase) is None,
        addressed(before + other + after, Seq::empty()) == Some(other),
{
    reveal_strlit(",: ");
    let all = call + gap + said;
    assert(folded(call[0]) == folded(wake_phrase[0]));
    lemma_white_folded(call[0], wake_phrase[0]);
    assert(all[0] == call[0]);
    assert(all.last() == said.last());
    law_trimmed(before, all, after);
    law_trimmed(before, other, after);
    let n = wake_phrase.len() as int;
    assert(all.take(n) =~= call);
    assert(all[n] == gap[0]);
    assert(",: "@.contains(gap[0]));
    assert(all.skip(n) =~= gap + said);
    law_stripped_start(gap, said, ",: "@);
}

/// A search is understood by how it begins: what stands behind `research` or `find papers about` is
/// the query, in the user's own letters; and what is no phrase and begins no search is a request, as
/// the user said it.
pub proof fn law_search_words(text: Seq<char>, rest: Seq<char>)
    requires
        text.len() >= 18,
    ensures
        understood(text, "research "@ + rest) == (CommandView::Research {
            query: trimmed(text.skip(9)),
        }),
        understood(text, "find papers about "@ + rest) == (CommandView::Research {
            query: trimmed(text.skip(18)),
        }),
        !begins(rest, "research "@) && !begins(rest, "find papers about "@) && (forall|
            command: CommandView,
            i: int,
        |
            0 <= i < phrases(command).len() ==> #[trigger] phrases(command)[i] != rest)
            ==> understood(text, rest) == (CommandView::Ask { text }),
{
    lemma_no_phrase_searches(rest);
    lemma_no_phrase("research "@ + rest);
    lemma_no_phrase("find papers about "@ + rest);
    if forall|command: CommandView, i: int|
        0 <= i < phrases(command).len() ==> #[trigger] phrases(command)[i] != rest {
        lemma_no_phrase(rest);
    }
    let first = "research "@ + rest;
    assert(first.subrange(0, "research "@.len() as int) =~= "research "@);
    let second = "find papers about "@ + rest;
    assert(second.subrange(0, "find papers about "@.len() as int) =~= "find papers about "@);
    reveal_strlit("research ");
    reveal_strlit("find papers about ");
    if begins(second, "research "@) {
        assert(second.subrange(0, 9)[0] == 'r');
        assert(second[0] == 'f');
    }
    if text.len() == 9 {
        assert(text.skip(9) =~= Seq::<char>::empty());
    }
    if text.len() == 18 {
        assert(text.skip(18) =~= Seq::<char>::empty());
    }
}

proof fn lemma_no_phrase_searches(rest: Seq<char>)
    ensures
        forall|command: CommandView, i: int|
            0 <= i < phrases(command).len() ==> #[trigger] phrases(command)[i] != "research "@ + rest
                && phrases(command)[i] != "find papers about "@ + rest,
{
    reveal_strlit("research ");
    reveal_strlit("find papers about ");
    let first = "research "@ + rest;
    let second = "find papers about "@ + rest;
    assert(first[0] == 'r' && first[3] == 'e');
    assert(second[0] == 'f');
    assert forall|command: CommandView, i: int| 0 <= i < phrases(command).len() implies
        #[trigger] phrases(command)[i] != first && phrases(command)[i] != second by {
        lemma_phrase_begins(command, i);
    }
}

proof fn lemma_phrase_begins(command: CommandView, i: int)
    requires
        0 <= i < phrases(command).len(),
    ensures
        phrases(command)[i][0] != 'f',
        phrases(command)[i].len() > 3 ==> phrases(command)[i][0] != 'r' || phrases(command)[i][3]
            != 'e',
{
    reveal_strlit("pause");
    reveal_strlit("pause activity");
    reveal_strlit("resume");
    reveal_strlit("resume activity");
    reveal_strlit("i'm away");
    reveal_strlit("i am away");
    reveal_strlit("away mode on");
    reveal_strlit("i'm back");
    reveal_strlit("i am back");
    reveal_strlit("away mode off");
    reveal_strlit("status");
    reveal_strlit("what happened");
    reveal_strlit("run down");
    reveal_strlit("rundown");
    reveal_strlit("check everything");
    reveal_strlit("read it");
    reveal_strlit("read that");
    reveal_strlit("why");
    reveal_strlit("why is it important");
    reveal_strlit("stop");
    reveal_strlit("shutdown");
    reveal_strlit("undo that");
    reveal_strlit("listen");
    reveal_strlit("summarize discord");
    assert("pause"@[0] == 'p');
    assert("pause activity"@[0] == 'p');
    assert("resume"@[0] == 'r');
    assert("resume activity"@[0] == 'r');
    assert("i'm away"@[0] == 'i');
    assert("i am away"@[0] == 'i');
    assert("away mode on"@[0] == 'a');
    assert("i'm back"@[0] == 'i');
    assert("i am back"@[0] == 'i');
    assert("away mode off"@[0] == 'a');
    assert("status"@[0] == 's');
    assert("what happened"@[0] == 'w');
    assert("run down"@[0] == 'r');
    assert("rundown"@[0] == 'r');
    assert("check everything"@[0] == 'c');
    assert("read it"@[0] == 'r');
    assert("read that"@[0] == 'r');
    assert("why"@[0] == 'w');
    assert("why is it important"@[0] == 'w');
    assert("stop"@[0] == 's');
    assert("shutdown"@[0] == 's');
    assert("undo that"@[0] == 'u');
    assert("listen"@[0] == 'l');
    assert("summarize discord"@[0] == 's');
    assert("resume"@[3] == 'u');
    assert("resume activity"@[3] == 'u');
    assert("run down"@[3] == ' ');
    assert("rundown"@[3] == 'd');
    assert("read it"@[3] == 'd');
    assert("read that"@[3] == 'd');
}

proof fn lemma_no_phrase(said: Seq<char>)
    requires
        forall|command: CommandView, i: int|
            0 <= i < phrases(command).len() ==> #[trigger] phrases(command)[i] != said,
    ensures
        !begins(said, "research "@) && !begins(said, "find papers about "@) ==> forall|
            text: Seq<char>,
        | #[trigger]
            understood(text, said) == (CommandView::Ask { text }),
        begins(said, "research "@) ==> forall|text: Seq<char>| #[trigger]
            understood(text, said) == (CommandView::Research { query: trimmed(behind(text, 9)) }),
        begins(said, "find papers about "@) && !begins(said, "research "@) ==> forall|
            text: Seq<char>,
        | #[trigger]
            understood(text, said) == (CommandView::Research { query: trimmed(behind(text, 18)) }),
{
    assert(phrases(CommandView::Pause)[0] == "pause"@);
    assert(phrases(CommandView::Pause)[1] == "pause activity"@);
    assert(phrases(CommandView::Resume)[0] == "resume"@);
    assert(phrases(CommandView::Resume)[1] == "resume activity"@);
    assert(phrases(CommandView::Away { enabled: true })[0] == "i'm away"@);
    assert(phrases(CommandView::Away { enabled: true })[1] == "i am away"@);
    assert(phrases(CommandView::Away { enabled: true })[2] == "away mode on"@);
    assert(phrases(CommandView::Away { enabled: false })[0] == "i'm back"@);
    assert(phrases(CommandView::Away { enabled: false })[1] == "i am back"@);
    assert(phrases(CommandView::Away { enabled: false })[2] == "away mode off"@);
    assert(phrases(CommandView::Status)[0] == "status"@);
    assert(phrases(CommandView::Status)[1] == "what happened"@);
    assert(phrases(CommandView::Rundown)[0] == "run down"@);
    assert(phrases(CommandView::Rundown)[1] == "rundown"@);
    assert(phrases(CommandView::Rundown)[2] == "check everything"@);
    assert(phrases(CommandView::ReadLast)[0] == "read it"@);
    assert(phrases(CommandView::ReadLast)[1] == "read that"@);
    assert(phrases(CommandView::Why)[0] == "why"@);
    assert(phrases(CommandView::Why)[1] == "why is it important"@);
    assert(phrases(CommandView::Stop)[0] == "stop"@);
    assert(phrases(CommandView::Stop)[1] == "shutdown"@);
    assert(phrases(CommandView::UndoLast)[0] == "undo that"@);
    assert(phrases(CommandView::Listen)[0] == "listen"@);
    assert(phrases(CommandView::SummarizeDiscord { channel: None })[0] == "summarize discord"@);
}

} // verus!
