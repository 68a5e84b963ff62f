//! Commands of the user.
use crate::agent::config::{Command, CommandView};
use crate::agent::daemon::Controls;
use crate::agent::discord::{configured, is_configured};
use crate::agent::errands::{has_moved, says_moved};
use crate::agent::intake::identity;
use crate::agent::runtime::{
    activity, activity_name, checkpointed, enqueued, status_json, Runtime, RuntimeView,
};
use crate::agent::state::{
    announced, announcement_view, announcement_views, find_job, job_views, known, place,
    push_announcement, Announcement, AnnouncementView, Job, JobView, StateView, Status, Work,
    WorkView,
};
use crate::base::config::Config;
use crate::base::limits::digest_text;
use crate::error::{Error, ErrorView};
use crate::failure::{reported, Failure, FailureView};
use crate::json::{text_or_null, Json, JsonView};
use crate::text::{blank, byte_len, clip, clipped, decimal, is_blank, maybe, numeral, size};
use vstd::prelude::*;

verus! {

/// Where a command stands.
#[derive(Debug)]
pub enum CommandStage {
    Looking { id: String, work: Work, response: Json },
    Queued { response: Json },
    Loading { job_id: String },
    Archiving { response: Json },
    Saving { response: Json },
    Finished,
}

pub enum CommandStageView {
    Looking { id: Seq<char>, work: WorkView, response: JsonView },
    Queued { response: JsonView },
    Loading { job_id: Seq<char> },
    Archiving { response: JsonView },
    Saving { response: JsonView },
    Finished,
}

impl View for CommandStage {
    type V = CommandStageView;

    open spec fn view(&self) -> CommandStageView {
        match self {
            CommandStage::Looking { id, work, response } => CommandStageView::Looking {
                id: id@,
                work: work@,
                response: response@,
            },
            CommandStage::Queued { response } => CommandStageView::Queued { response: response@ },
            CommandStage::Loading { job_id } => CommandStageView::Loading { job_id: job_id@ },
            CommandStage::Archiving { response } => CommandStageView::Archiving {
                response: response@,
            },
            CommandStage::Saving { response } => CommandStageView::Saving { response: response@ },
            CommandStage::Finished => CommandStageView::Finished,
        }
    }
}

/// What a command needs next.
#[derive(Debug)]
pub enum CommandNeed {
    /// Report whether this object exists.
    LookUp(String),
    /// Keep the state.
    Save,
    /// Load a job that was finished.
    Activity { object: String },
    /// Keep the jobs that are done.
    Archive,
    /// Nothing more: answer the user.
    Respond(Result<Json, Failure>),
}

pub enum CommandNeedView {
    LookUp(Seq<char>),
    Save,
    Activity { object: Seq<char> },
    Archive,
    Respond(Result<JsonView, FailureView>),
}

impl View for CommandNeed {
    type V = CommandNeedView;

    open spec fn view(&self) -> CommandNeedView {
        match self {
            CommandNeed::LookUp(x) => CommandNeedView::LookUp(x@),
            CommandNeed::Save => CommandNeedView::Save,
            CommandNeed::Activity { object } => CommandNeedView::Activity { object: object@ },
            CommandNeed::Archive => CommandNeedView::Archive,
            CommandNeed::Respond(x) => CommandNeedView::Respond(reported(*x)),
        }
    }
}

/// What came of it.
#[derive(Debug)]
pub enum CommandEvent {
    Known(bool),
    Done,
    Failed(Failure),
    Job(Job),
}

pub enum CommandEventView {
    Known(bool),
    Done,
    Failed(FailureView),
    Job(JobView),
}

impl View for CommandEvent {
    type V = CommandEventView;

    open spec fn view(&self) -> CommandEventView {
        match self {
            CommandEvent::Known(x) => CommandEventView::Known(*x),
            CommandEvent::Done => CommandEventView::Done,
            CommandEvent::Failed(x) => CommandEventView::Failed(x@),
            CommandEvent::Job(x) => CommandEventView::Job(x@),
        }
    }
}

/// The agent, where the command stands, and what it needs next.
pub struct CommandTurn {
    pub rt: RuntimeView,
    pub stage: CommandStageView,
    pub need: CommandNeedView,
}

pub open spec fn responds(rt: RuntimeView, res: Result<JsonView, FailureView>) -> CommandTurn {
    CommandTurn { rt, stage: CommandStageView::Finished, need: CommandNeedView::Respond(res) }
}

pub open spec fn declines(rt: RuntimeView, error: ErrorView) -> CommandTurn {
    responds(rt, Err(FailureView::Refused(error)))
}

/// The command is done once the state is kept.
pub open spec fn concludes(rt: RuntimeView, response: JsonView) -> CommandTurn {
    CommandTurn {
        rt,
        stage: CommandStageView::Saving { response },
        need: CommandNeedView::Save,
    }
}

/// The command offers work to the queue.
pub open spec fn offers(
    rt: RuntimeView,
    id: Seq<char>,
    work: WorkView,
    response: JsonView,
) -> CommandTurn {
    CommandTurn {
        rt,
        stage: CommandStageView::Looking { id, work, response },
        need: CommandNeedView::LookUp(activity(id)),
    }
}

pub open spec fn job_json(id: Seq<char>) -> JsonView {
    JsonView::object().with("job_id"@, JsonView::Text(id))
}

pub open spec fn flag_json(name: Seq<char>, value: bool) -> JsonView {
    JsonView::object().with(name, JsonView::Bool(value))
}

pub open spec fn text_json(name: Seq<char>, value: Seq<char>) -> JsonView {
    JsonView::object().with(name, JsonView::Text(value))
}

/// The job from its start again, but for an action that was begun.
pub open spec fn retried(job: JobView, time: u64) -> JobView {
    JobView {
        status: Status::Pending,
        attempts: 0,
        calls: 0,
        next_attempt: time,
        error: None,
        proposal: if job.action is None {
            None
        } else {
            job.proposal
        },
        ..job
    }
}

/// The job waits for its action to be looked for.
pub open spec fn reconciling(job: JobView, time: u64) -> JobView {
    JobView { status: Status::Pending, attempts: 0, next_attempt: time, ..job }
}

/// The job is done without a result of its own.
pub open spec fn dismissed(job: JobView) -> JobView {
    JobView {
        status: Status::Done,
        result: Some(
            JsonView::object().with("dismissed"@, JsonView::Bool(true)).with(
                "previous_error"@,
                text_or_null(job.error),
            ),
        ),
        ..job
    }
}

/// The last of the jobs that moved a message.
pub open spec fn last_moved(recent: Seq<JobView>) -> Option<Seq<char>>
    decreases recent.len(),
{
    if recent.len() == 0 {
        None
    } else if recent.last().work is Email && has_moved(recent.last().result) {
        Some(recent.last().id)
    } else {
        last_moved(recent.drop_last())
    }
}

pub open spec fn undo_queued(rt: RuntimeView, job_id: Seq<char>) -> CommandTurn {
    let id = identity("undo:"@ + job_id);
    offers(rt, id, WorkView::Undo { job_id }, job_json(id))
}

/// What was spoken last, or else would be spoken last.
pub open spec fn last_said(state: StateView) -> Option<AnnouncementView> {
    match state.last_spoken {
        Some(item) => Some(item),
        None => if state.announcements.len() > 0 {
            Some(state.announcements.last())
        } else {
            None
        },
    }
}

pub open spec fn read_again(rt: RuntimeView, time: u64) -> CommandTurn {
    match last_said(rt.state) {
        Some(last) => concludes(
            rt.with_state(
                StateView {
                    announcements: announced(
                        rt.state.announcements,
                        AnnouncementView {
                            id: "read:"@ + last.id + ":"@ + numeral(time as nat),
                            text: clipped(last.detail, 3900),
                            detail: last.detail,
                            urgent: false,
                        },
                    ),
                    ..rt.state
                },
            ),
            text_json("detail"@, last.detail),
        ),
        None => concludes(rt, text_json("detail"@, "No recent announcement."@)),
    }
}

pub open spec fn summary_queued(
    config: Config,
    rt: RuntimeView,
    time: u64,
    channel: Option<Seq<char>>,
) -> CommandTurn {
    let channels = config.agent.discord.channels@;
    let which = match channel {
        Some(channel) => Some(channel),
        None => if channels.len() > 0 {
            Some(channels[0]@)
        } else {
            None
        },
    };
    match which {
        None => declines(rt, ErrorView::NoChannel),
        Some(channel) => if !configured(channels, channel) {
            declines(rt, ErrorView::ChannelUnknown)
        } else {
            let id = identity("summary:"@ + numeral(time as nat) + ":"@ + channel);
            offers(rt, id, WorkView::DiscordSummary { channel }, job_json(id))
        },
    }
}

/// How a command on a job in the queue begins.
#[verifier::opaque]
pub open spec fn job_commanded(rt: RuntimeView, command: CommandView, time: u64) -> CommandTurn {
    let jobs = rt.state.jobs;
    match command {
        CommandView::Retry { job_id } => if !known(jobs, job_id) {
            declines(rt, ErrorView::NoSuchReview)
        } else {
            let job = jobs[place(jobs, job_id) as int];
            if job.work is Discord && job.action is Some {
                declines(rt, ErrorView::OnlyReconcile)
            } else {
                concludes(checkpointed(rt, retried(job, time)), text_json("retrying"@, job_id))
            }
        },
        CommandView::Reconcile { job_id } => if !known(jobs, job_id) {
            declines(rt, ErrorView::UnknownJob)
        } else {
            let job = jobs[place(jobs, job_id) as int];
            if !(job.work is Discord && job.action is Some) {
                declines(rt, ErrorView::NoUncertainSend)
            } else {
                concludes(
                    checkpointed(rt, reconciling(job, time)),
                    text_json("reconciling"@, job_id),
                )
            }
        },
        CommandView::Dismiss { job_id } => if !known(jobs, job_id) {
            declines(rt, ErrorView::UnknownJob)
        } else {
            CommandTurn {
                rt: checkpointed(rt, dismissed(jobs[place(jobs, job_id) as int])),
                stage: CommandStageView::Archiving { response: text_json("dismissed"@, job_id) },
                need: CommandNeedView::Archive,
            }
        },
        _ => declines(rt, ErrorView::Unexpected),
    }
}

/// How a command begins that changes what the agent heeds.
#[verifier::opaque]
pub open spec fn switched(rt: RuntimeView, command: CommandView) -> CommandTurn {
    let state = rt.state;
    match command {
        CommandView::Status => concludes(rt, status_json(state)),
        CommandView::Pause => concludes(
            RuntimeView {
                state: StateView { paused: true, ..state },
                controls: Controls { paused: true, ..rt.controls },
                ..rt
            },
            flag_json("paused"@, true),
        ),
        CommandView::Resume => concludes(
            RuntimeView {
                state: StateView { paused: false, ..state },
                controls: Controls { paused: false, ..rt.controls },
                ..rt
            },
            flag_json("paused"@, false),
        ),
        CommandView::Away { enabled } => concludes(
            RuntimeView {
                state: StateView { away: enabled, ..state },
                controls: Controls { away: enabled, ..rt.controls },
                ..rt
            },
            flag_json("away"@, enabled),
        ),
        CommandView::Stop => concludes(
            RuntimeView {
                stopped: true,
                controls: Controls { stop: true, ..rt.controls },
                ..rt
            },
            flag_json("stopping"@, true),
        ),
        CommandView::Rundown => concludes(
            rt.with_state(
                StateView { next_rundown: 0, next_research: 0, next_poll: 0, ..state },
            ),
            flag_json("scheduled"@, true),
        ),
        CommandView::Listen => concludes(rt, flag_json("listen"@, true)),
        _ => declines(rt, ErrorView::Unexpected),
    }
}

/// How a command begins that asks for work.
#[verifier::opaque]
pub open spec fn tasked(
    config: Config,
    rt: RuntimeView,
    command: CommandView,
    time: u64,
) -> CommandTurn {
    let state = rt.state;
    match command {
        CommandView::Ask { text } => if blank(text) || size(text) > 16000 {
            declines(rt, ErrorView::RequestLength)
        } else {
            let id = identity(
                "ask:"@ + numeral(time as nat) + ":"@ + numeral(state.jobs.len()) + ":"@ + text,
            );
            offers(rt, id, WorkView::Ask { text }, job_json(id))
        },
        CommandView::Research { query } => if blank(query) || size(query) > 512 {
            declines(rt, ErrorView::QueryLength)
        } else {
            let id = identity("manual-research:"@ + numeral(time as nat) + ":"@ + query);
            offers(rt, id, WorkView::Research { query }, job_json(id))
        },
        CommandView::Undo { job_id } => undo_queued(rt, job_id),
        CommandView::Reprocess { job_id } => CommandTurn {
            rt,
            stage: CommandStageView::Loading { job_id },
            need: CommandNeedView::Activity { object: activity(job_id) },
        },
        CommandView::UndoLast => match last_moved(state.recent) {
            None => declines(rt, ErrorView::NoRecentMove),
            Some(job_id) => undo_queued(rt, job_id),
        },
        CommandView::SummarizeDiscord { channel } => summary_queued(config, rt, time, channel),
        CommandView::ReadLast | CommandView::Why => read_again(rt, time),
        _ => declines(rt, ErrorView::Unexpected),
    }
}

/// How a command begins.
pub open spec fn commanded(
    config: Config,
    rt: RuntimeView,
    command: CommandView,
    time: u64,
) -> CommandTurn {
    match command {
        CommandView::Status
        | CommandView::Pause
        | CommandView::Resume
        | CommandView::Away { .. }
        | CommandView::Stop
        | CommandView::Rundown
        | CommandView::Listen => switched(rt, command),
        CommandView::Retry { .. } | CommandView::Reconcile { .. } | CommandView::Dismiss { .. } =>
        job_commanded(rt, command, time),
        _ => tasked(config, rt, command, time),
    }
}

/// A decision on a message that was not acted on can be made again.
pub open spec fn reprocessed(
    config: Config,
    rt: RuntimeView,
    time: u64,
    job_id: Seq<char>,
    original: JobView,
) -> CommandTurn {
    if !(original.work is Email && original.action is None) {
        declines(rt, ErrorView::OnlyReprocess)
    } else {
        let id = identity(
            "reprocess:"@ + job_id + ":"@ + numeral(time as nat) + ":"@ + config.agent.email.policy@,
        );
        offers(
            rt,
            id,
            original.work,
            JsonView::object().with("job_id"@, JsonView::Text(id)).with(
                "reprocessing"@,
                JsonView::Text(job_id),
            ),
        )
    }
}

/// How a command goes on after `event`.
pub open spec fn command_step(
    config: Config,
    rt: RuntimeView,
    time: u64,
    stage: CommandStageView,
    event: CommandEventView,
) -> CommandTurn {
    match (stage, event) {
        (CommandStageView::Looking { id, work, response }, CommandEventView::Known(archived)) => {
            let (now, res) = enqueued(config.agent.max_jobs as nat, rt, id, work, time, archived);
            match res {
                Err(error) => declines(now, error),
                Ok(true) => CommandTurn {
                    rt: now,
                    stage: CommandStageView::Queued { response },
                    need: CommandNeedView::Save,
                },
                Ok(false) => concludes(now, response),
            }
        },
        (CommandStageView::Queued { response }, CommandEventView::Done) => concludes(rt, response),
        (CommandStageView::Loading { job_id }, CommandEventView::Job(original)) => reprocessed(
            config,
            rt,
            time,
            job_id,
            original,
        ),
        (CommandStageView::Archiving { response }, CommandEventView::Done) => concludes(
            rt,
            response,
        ),
        (CommandStageView::Saving { response }, CommandEventView::Done) => responds(
            rt,
            Ok(response),
        ),
        (_, CommandEventView::Failed(failure)) => responds(rt, Err(failure)),
        _ => declines(rt, ErrorView::Unexpected),
    }
}

fn decline(error: Error) -> (out: (CommandStage, CommandNeed))
    ensures
        out.0@ == CommandStageView::Finished,
        out.1@ == CommandNeedView::Respond(Err(FailureView::Refused(error@))),
{
    (CommandStage::Finished, CommandNeed::Respond(Err(Failure::Refused(error))))
}

fn conclude(response: Json) -> (out: (CommandStage, CommandNeed))
    ensures
        (out.0@, out.1@) == (
            (CommandStageView::Saving { response: response@ }),
            CommandNeedView::Save,
        ),
{
    (CommandStage::Saving { response }, CommandNeed::Save)
}

fn offer(id: String, work: Work, response: Json) -> (out: (CommandStage, CommandNeed))
    ensures
        (out.0@, out.1@) == (
            (CommandStageView::Looking { id: id@, work: work@, response: response@ }),
            CommandNeedView::LookUp(activity(id@)),
        ),
{
    let name = activity_name(id.as_str());
    (CommandStage::Looking { id, work, response }, CommandNeed::LookUp(name))
}

fn job_document(id: &str) -> (res: Json)
    ensures
        res@ == job_json(id@),
{
    Json::object().with("job_id", Json::string(id))
}

fn flag_document(name: &str, value: bool) -> (res: Json)
    ensures
        res@ == flag_json(name@, value),
{
    Json::object().with(name, Json::Bool(value))
}

fn text_document(name: &str, value: &str) -> (res: Json)
    ensures
        res@ == text_json(name@, value@),
{
    Json::object().with(name, Json::string(value))
}

fn offer_undo(job_id: String) -> (out: (CommandStage, CommandNeed))
    ensures
        forall|rt: RuntimeView|
            #![trigger undo_queued(rt, job_id@)]
            (CommandTurn { rt, stage: out.0@, need: out.1@ }) == undo_queued(rt, job_id@),
{
    let mut text = "undo:".to_owned();
    text.append(job_id.as_str());
    let id = digest_text(text.as_str());
    let response = job_document(id.as_str());
    offer(id, Work::Undo { job_id }, response)
}

fn find_moved(recent: &Vec<Job>) -> (res: Option<String>)
    ensures
        maybe(res) == last_moved(job_views(recent@)),
{
    let ghost all = job_views(recent@);
    let mut i: usize = recent.len();
    assert(all.take(i as int) =~= all);
    while i > 0
        invariant
            i <= recent.len(),
            all == job_views(recent@),
            last_moved(all) == last_moved(all.take(i as int)),
        decreases i,
    {
        assert(all.take(i as int).last() == recent@[i - 1]@);
        assert(all.take(i as int).drop_last() =~= all.take(i - 1));
        let email = match &recent[i - 1].work {
            Work::Email { .. } => true,
            _ => false,
        };
        if email && says_moved(&recent[i - 1].result) {
            return Some(recent[i - 1].id.clone());
        }
        i = i - 1;
    }
    None
}

impl Runtime {
    fn last_announcement(&self) -> (res: Option<Announcement>)
        ensures
            announcement_view(res) == last_said(self@.state),
    {
        match &self.state.last_spoken {
            Some(item) => Some(item.clone()),
            None => if self.state.announcements.len() > 0 {
                assert(announcement_views(self.state.announcements@).last()
                    == self.state.announcements@.last()@);
                Some(self.state.announcements[self.state.announcements.len() - 1].clone())
            } else {
                None
            },
        }
    }

    fn reads_again(&mut self, time: u64) -> (res: (CommandStage, CommandNeed))
        ensures
            (CommandTurn { rt: final(self)@, stage: res.0@, need: res.1@ }) == read_again(
                old(self)@,
                time,
            ),
            final(self).config == old(self).config,
    {
        match self.last_announcement() {
            Some(last) => {
                let mut id = "read:".to_owned();
                id.append(last.id.as_str());
                id.append(":");
                id.append(decimal(time).as_str());
                let response = text_document("detail", last.detail.as_str());
                let item = Announcement {
                    id,
                    text: clip(last.detail.as_str(), 3900),
                    detail: last.detail,
                    urgent: false,
                };
                push_announcement(&mut self.state.announcements, item);
                conclude(response)
            },
            None => conclude(text_document("detail", "No recent announcement.")),
        }
    }

    fn queues_summary(&mut self, time: u64, channel: Option<String>) -> (res: (
        CommandStage,
        CommandNeed,
    ))
        ensures
            (CommandTurn { rt: final(self)@, stage: res.0@, need: res.1@ }) == summary_queued(
                old(self).config,
                old(self)@,
                time,
                maybe(channel),
            ),
            final(self).config == old(self).config,
    {
        let channels = &self.config.agent.discord.channels;
        let channel = match channel {
            Some(channel) => channel,
            None => if channels.len() > 0 {
                channels[0].clone()
            } else {
                return decline(Error::NoChannel);
            },
        };
        if !is_configured(channels, channel.as_str()) {
            return decline(Error::ChannelUnknown);
        }
        let mut text = "summary:".to_owned();
        text.append(decimal(time).as_str());
        text.append(":");
        text.append(channel.as_str());
        let id = digest_text(text.as_str());
        let response = job_document(id.as_str());
        offer(id, Work::DiscordSummary { channel }, response)
    }

    #[verifier::rlimit(40)]
    fn commands_job(&mut self, command: Command, time: u64) -> (res: (CommandStage, CommandNeed))
        ensures
            (CommandTurn { rt: final(self)@, stage: res.0@, need: res.1@ }) == job_commanded(
                old(self)@,
                command@,
                time,
            ),
            final(self).config == old(self).config,
    {
        proof {
            reveal(job_commanded);
        }
        match command {
            Command::Retry { job_id } => match find_job(&self.state.jobs, job_id.as_str()) {
                None => decline(Error::NoSuchReview),
                Some(at) => {
                    let mut job = self.state.jobs[at].clone();
                    let discord = match &job.work {
                        Work::Discord { .. } => true,
                        _ => false,
                    };
                    if discord && job.action.is_some() {
                        return decline(Error::OnlyReconcile);
                    }
                    job.status = Status::Pending;
                    job.attempts = 0;
                    job.calls = 0;
                    job.next_attempt = time;
                    job.error = None;
                    if job.action.is_none() {
                        job.proposal = None;
                    }
                    self.checkpoint(&job);
                    conclude(text_document("retrying", job_id.as_str()))
                },
            },
            Command::Reconcile { job_id } => match find_job(&self.state.jobs, job_id.as_str()) {
                None => decline(Error::UnknownJob),
                Some(at) => {
                    let mut job = self.state.jobs[at].clone();
                    let discord = match &job.work {
                        Work::Discord { .. } => true,
                        _ => false,
                    };
                    if !(discord && job.action.is_some()) {
                        return decline(Error::NoUncertainSend);
                    }
                    job.status = Status::Pending;
                    job.attempts = 0;
                    job.next_attempt = time;
                    self.checkpoint(&job);
                    conclude(text_document("reconciling", job_id.as_str()))
                },
            },
            Command::Dismiss { job_id } => match find_job(&self.state.jobs, job_id.as_str()) {
                None => decline(Error::UnknownJob),
                Some(at) => {
                    let mut job = self.state.jobs[at].clone();
                    job.status = Status::Done;
                    job.result = Some(
                        Json::object().with("dismissed", Json::Bool(true)).with(
                            "previous_error",
                            Json::optional(&job.error),
                        ),
                    );
                    self.checkpoint(&job);
                    let response = text_document("dismissed", job_id.as_str());
                    (CommandStage::Archiving { response }, CommandNeed::Archive)
                },
            },
            _ => decline(Error::Unexpected),
        }
    }

    #[verifier::rlimit(40)]
    fn switches(&mut self, command: Command) -> (res: (CommandStage, CommandNeed))
        ensures
            (CommandTurn { rt: final(self)@, stage: res.0@, need: res.1@ }) == switched(
                old(self)@,
                command@,
            ),
            final(self).config == old(self).config,
    {
        proof {
            reveal(switched);
        }
        match command {
            Command::Status => conclude(self.status()),
            Command::Pause => {
                self.state.paused = true;
                self.controls.paused = true;
                conclude(flag_document("paused", true))
            },
            Command::Resume => {
                self.state.paused = false;
                self.controls.paused = false;
                conclude(flag_document("paused", false))
            },
            Command::Away { enabled } => {
                self.state.away = enabled;
                self.controls.away = enabled;
                conclude(flag_document("away", enabled))
            },
            Command::Stop => {
                self.stopped = true;
                self.controls.stop = true;
                conclude(flag_document("stopping", true))
            },
            Command::Rundown => {
                self.state.next_rundown = 0;
                self.state.next_research = 0;
                self.state.next_poll = 0;
                conclude(flag_document("scheduled", true))
            },
            Command::Listen => conclude(flag_document("listen", true)),
            _ => decline(Error::Unexpected),
        }
    }

    #[verifier::rlimit(40)]
    fn tasks(&mut self, command: Command, time: u64) -> (res: (CommandStage, CommandNeed))
        ensures
            (CommandTurn { rt: final(self)@, stage: res.0@, need: res.1@ }) == tasked(
                old(self).config,
                old(self)@,
                command@,
                time,
            ),
            final(self).config == old(self).config,
    {
        proof {
            reveal(tasked);
        }
        match command {
            Command::Ask { text } => {
                if is_blank(text.as_str()) || byte_len(text.as_str()) > 16000 {
                    return decline(Error::RequestLength);
                }
                let mut key = "ask:".to_owned();
                key.append(decimal(time).as_str());
                key.append(":");
                key.append(decimal(self.state.jobs.len() as u64).as_str());
                key.append(":");
                key.append(text.as_str());
                let id = digest_text(key.as_str());
                let response = job_document(id.as_str());
                offer(id, Work::Ask { text }, response)
            },
            Command::Research { query } => {
                if is_blank(query.as_str()) || byte_len(query.as_str()) > 512 {
                    return decline(Error::QueryLength);
                }
                let mut key = "manual-research:".to_owned();
                key.append(decimal(time).as_str());
                key.append(":");
                key.append(query.as_str());
                let id = digest_text(key.as_str());
                let response = job_document(id.as_str());
                offer(id, Work::Research { query }, response)
            },
            Command::Undo { job_id } => offer_undo(job_id),
            Command::Reprocess { job_id } => {
                let object = activity_name(job_id.as_str());
                (CommandStage::Loading { job_id }, CommandNeed::Activity { object })
            },
            Command::UndoLast => match find_moved(&self.state.recent) {
                None => decline(Error::NoRecentMove),
                Some(job_id) => offer_undo(job_id),
            },
            Command::SummarizeDiscord { channel } => self.queues_summary(time, channel),
            Command::ReadLast | Command::Why => self.reads_again(time),
            _ => decline(Error::Unexpected),
        }
    }

    fn obey(&mut self, command: Command, time: u64) -> (res: (CommandStage, CommandNeed))
        ensures
            (CommandTurn { rt: final(self)@, stage: res.0@, need: res.1@ }) == commanded(
                old(self).config,
                old(self)@,
                command@,
                time,
            ),
            final(self).config == old(self).config,
    {
        match &command {
            Command::Status
            | Command::Pause
            | Command::Resume
            | Command::Away { .. }
            | Command::Stop
            | Command::Rundown
            | Command::Listen => self.switches(command),
            Command::Retry { .. } | Command::Reconcile { .. } | Command::Dismiss { .. } =>
            self.commands_job(command, time),
            _ => self.tasks(command, time),
        }
    }

    fn reprocess(&mut self, time: u64, job_id: String, original: Job) -> (res: (
        CommandStage,
        CommandNeed,
    ))
        ensures
            (CommandTurn { rt: final(self)@, stage: res.0@, need: res.1@ }) == reprocessed(
                old(self).config,
                old(self)@,
                time,
                job_id@,
                original@,
            ),
            final(self).config == old(self).config,
    {
        let email = match &original.work {
            Work::Email { .. } => true,
            _ => false,
        };
        if !(email && original.action.is_none()) {
            return decline(Error::OnlyReprocess);
        }
        let mut key = "reprocess:".to_owned();
        key.append(job_id.as_str());
        key.append(":");
        key.append(decimal(time).as_str());
        key.append(":");
        key.append(self.config.agent.email.policy.as_str());
        let id = digest_text(key.as_str());
        let response = Json::object().with("job_id", Json::string(id.as_str())).with(
            "reprocessing",
            Json::string(job_id.as_str()),
        );
        offer(id, original.work, response)
    }
}

/// A command under way.
#[derive(Debug)]
pub struct Request {
    pub stage: CommandStage,
    pub time: u64,
}

impl Runtime {
    /// Begins a command of the user.
    pub fn command(&mut self, command: Command, time: u64) -> (res: (Request, CommandNeed))
        ensures
            (CommandTurn { rt: final(self)@, stage: res.0.stage@, need: res.1@ }) == commanded(
                old(self).config,
                old(self)@,
                command@,
                time,
            ),
            res.0.time == time,
            final(self).config == old(self).config,
    {
        let (stage, need) = self.obey(command, time);
        (Request { stage, time }, need)
    }

    /// Goes on with a command after `event`.
    pub fn command_on(&mut self, request: Request, event: CommandEvent) -> (res: (
        Request,
        CommandNeed,
    ))
        ensures
            (CommandTurn { rt: final(self)@, stage: res.0.stage@, need: res.1@ }) == command_step(
                old(self).config,
                old(self)@,
                request.time,
                request.stage@,
                event@,
            ),
            res.0.time == request.time,
            final(self).config == old(self).config,
    {
        let time = request.time;
        let (stage, need) = match (request.stage, event) {
            (CommandStage::Looking { id, work, response }, CommandEvent::Known(archived)) => {
                match self.enqueue(id, work, time, archived) {
                    Err(error) => decline(error),
                    Ok(fresh) => if fresh {
                        (CommandStage::Queued { response }, CommandNeed::Save)
                    } else {
                        conclude(response)
                    },
                }
            },
            (CommandStage::Queued { response }, CommandEvent::Done) => conclude(response),
            (CommandStage::Loading { job_id }, CommandEvent::Job(original)) => self.reprocess(
                time,
                job_id,
                original,
            ),
            (CommandStage::Archiving { response }, CommandEvent::Done) => conclude(response),
            (CommandStage::Saving { response }, CommandEvent::Done) => (
                CommandStage::Finished,
                CommandNeed::Respond(Ok(response)),
            ),
            (_, CommandEvent::Failed(failure)) => (
                CommandStage::Finished,
                CommandNeed::Respond(Err(failure)),
            ),
            _ => decline(Error::Unexpected),
        };
        (Request { stage, time }, need)
    }
}

} // verus!
