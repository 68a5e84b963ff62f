//! The resident process: controls, acknowledgements and the control socket.
use crate::agent::config::{AgentConfig, Command, CommandView};
use crate::agent::paths::{beneath, entry_of, join, relative};
use crate::agent::runtime::{spoken, status_json, Runtime, RuntimeView};
use crate::agent::state::{fits, job_views, JobView, STATE_LIMIT, StateView, Status};
use crate::base::config::Config;
use crate::error::{seen, Error, ErrorView};
use crate::failure::{error_document, error_json, read_as, reported, told, Failure, FailureView};
use crate::json::{lemma_documents, text_or_null, Json, JsonView};
use crate::text::{
    begins, blank, byte_len, contains, copy_text, decimal, is_blank, maybe, numeral, occurs, size,
    starts_with, trim, trimmed,
};
use vstd::prelude::*;

verus! {

/// What a user has asked of the running process and it heeds at once.
#[derive(Debug, Clone, Copy, PartialEq, Eq, Structural)]
pub struct Controls {
    pub paused: bool,
    pub away: bool,
    pub stop: bool,
}

/// What a command changes at once.
pub open spec fn heeded(controls: Controls, command: CommandView) -> Controls {
    match command {
        CommandView::Pause => Controls { paused: true, ..controls },
        CommandView::Resume => Controls { paused: false, ..controls },
        CommandView::Away { enabled } => Controls { away: enabled, ..controls },
        CommandView::Stop => Controls { stop: true, ..controls },
        _ => controls,
    }
}

impl Controls {
    pub fn new(paused: bool, away: bool) -> (res: Controls)
        ensures
            res == (Controls { paused, away, stop: false }),
    {
        Controls { paused, away, stop: false }
    }

    /// Heeds what a command changes at once.
    pub fn immediate(&mut self, command: &Command)
        ensures
            *final(self) == heeded(*old(self), command@),
    {
        match command {
            Command::Pause => self.paused = true,
            Command::Resume => self.paused = false,
            Command::Away { enabled } => self.away = *enabled,
            Command::Stop => self.stop = true,
            _ => {},
        }
    }
}

/// A command that is heeded at once and then carried out changes nothing more of what is heeded:
/// carrying it out leaves the controls as heeding it did.
pub proof fn law_heeding_twice(controls: Controls, command: CommandView)
    ensures
        heeded(heeded(controls, command), command) == heeded(controls, command),
{
}

// ---------------------------------------------------------------------------
// Acknowledgements

pub open spec fn on_or_off(enabled: bool) -> Seq<char> {
    if enabled {
        "on"@
    } else {
        "off"@
    }
}

/// What is said when a command was carried out.
pub open spec fn acknowledged(rt: RuntimeView, command: CommandView) -> Option<Seq<char>> {
    match command {
        CommandView::Status => Some(
            "I have "@ + numeral(rt.state.jobs.len()) + " tasks waiting and "@ + numeral(
                rt.state.recent.len(),
            ) + " recent completed tasks. Away mode is "@ + on_or_off(rt.state.away) + "."@,
        ),
        CommandView::Pause => Some(
            "I've paused scheduled work. Say Lion, resume when you're ready."@,
        ),
        CommandView::Resume => Some("I've resumed scheduled work."@),
        CommandView::Away { enabled } => Some("Away mode is "@ + on_or_off(enabled) + "."@),
        CommandView::Rundown => Some("I've scheduled a rundown."@),
        CommandView::Ask { .. } => Some("I'll work on that."@),
        CommandView::Research { .. } => Some("I'll look for relevant research."@),
        CommandView::Undo { .. } | CommandView::UndoLast => Some("I've queued the email restore."@),
        CommandView::Retry { .. } | CommandView::Reprocess { .. } => Some(
            "I've queued another attempt."@,
        ),
        CommandView::Reconcile { .. } => Some("I'll check whether that reply was delivered."@),
        CommandView::Dismiss { .. } => Some("I've dismissed that task."@),
        CommandView::SummarizeDiscord { .. } => Some("I'll summarize the Discord conversation."@),
        CommandView::ReadLast
        | CommandView::Why
        | CommandView::Listen
        | CommandView::Stop => None,
    }
}

fn on_off(enabled: bool) -> (res: &'static str)
    ensures
        res@ == on_or_off(enabled),
{
    if enabled {
        "on"
    } else {
        "off"
    }
}

/// What is said when a command was carried out.
pub fn acknowledgement(command: &Command, app: &Runtime) -> (res: Option<String>)
    ensures
        maybe(res) == acknowledged(app@, command@),
{
    match command {
        Command::Status => {
            let mut out = "I have ".to_owned();
            out.append(decimal(app.state.jobs.len() as u64).as_str());
            out.append(" tasks waiting and ");
            out.append(decimal(app.state.recent.len() as u64).as_str());
            out.append(" recent completed tasks. Away mode is ");
            out.append(on_off(app.state.away));
            out.append(".");
            Some(out)
        },
        Command::Pause => Some(
            "I've paused scheduled work. Say Lion, resume when you're ready.".to_owned(),
        ),
        Command::Resume => Some("I've resumed scheduled work.".to_owned()),
        Command::Away { enabled } => {
            let mut out = "Away mode is ".to_owned();
            out.append(on_off(*enabled));
            out.append(".");
            Some(out)
        },
        Command::Rundown => Some("I've scheduled a rundown.".to_owned()),
        Command::Ask { .. } => Some("I'll work on that.".to_owned()),
        Command::Research { .. } => Some("I'll look for relevant research.".to_owned()),
        Command::Undo { .. } | Command::UndoLast => Some(
            "I've queued the email restore.".to_owned(),
        ),
        Command::Retry { .. } | Command::Reprocess { .. } => Some(
            "I've queued another attempt.".to_owned(),
        ),
        Command::Reconcile { .. } => Some(
            "I'll check whether that reply was delivered.".to_owned(),
        ),
        Command::Dismiss { .. } => Some("I've dismissed that task.".to_owned()),
        Command::SummarizeDiscord { .. } => Some(
            "I'll summarize the Discord conversation.".to_owned(),
        ),
        Command::ReadLast | Command::Why | Command::Listen | Command::Stop => None,
    }
}

// ---------------------------------------------------------------------------
// The resident process

/// Where the resident process stands.
#[derive(Debug)]
pub enum ResidentStage {
    Receiving,
    Obeying { command: Command },
    Reporting,
    Ticking,
    Keeping { text: String },
    Speaking,
    Publishing,
    Closing,
    Finished,
}

pub enum ResidentStageView {
    Receiving,
    Obeying { command: CommandView },
    Reporting,
    Ticking,
    Keeping { text: Seq<char> },
    Speaking,
    Publishing,
    Closing,
    Finished,
}

impl View for ResidentStage {
    type V = ResidentStageView;

    open spec fn view(&self) -> ResidentStageView {
        match self {
            ResidentStage::Receiving => ResidentStageView::Receiving,
            ResidentStage::Obeying { command } => ResidentStageView::Obeying { command: command@ },
            ResidentStage::Reporting => ResidentStageView::Reporting,
            ResidentStage::Ticking => ResidentStageView::Ticking,
            ResidentStage::Keeping { text } => ResidentStageView::Keeping { text: text@ },
            ResidentStage::Speaking => ResidentStageView::Speaking,
            ResidentStage::Publishing => ResidentStageView::Publishing,
            ResidentStage::Closing => ResidentStageView::Closing,
            ResidentStage::Finished => ResidentStageView::Finished,
        }
    }
}

/// What the resident process needs next.
#[derive(Debug)]
pub enum ResidentNeed {
    /// Take the next command, if one waits.
    Receive,
    /// Have the microphone listened to.
    Listen,
    /// Carry out a command.
    Obey(Command),
    /// Tell what came of a command, and have something said.
    Report { answer: Result<Json, Failure>, spoken: Option<String> },
    /// Do a tick.
    Tick,
    /// Have this said.
    Speak(String),
    /// Show the status to those who ask, and rest.
    Publish(Json),
    /// Keep the state.
    Save,
    /// Nothing more.
    Finish(Result<(), Failure>),
}

pub enum ResidentNeedView {
    Receive,
    Listen,
    Obey(CommandView),
    Report { answer: Result<JsonView, FailureView>, spoken: Option<Seq<char>> },
    Tick,
    Speak(Seq<char>),
    Publish(JsonView),
    Save,
    Finish(Result<(), FailureView>),
}

impl View for ResidentNeed {
    type V = ResidentNeedView;

    open spec fn view(&self) -> ResidentNeedView {
        match self {
            ResidentNeed::Receive => ResidentNeedView::Receive,
            ResidentNeed::Listen => ResidentNeedView::Listen,
            ResidentNeed::Obey(x) => ResidentNeedView::Obey(x@),
            ResidentNeed::Report { answer, spoken } => ResidentNeedView::Report {
                answer: reported(*answer),
                spoken: maybe(*spoken),
            },
            ResidentNeed::Tick => ResidentNeedView::Tick,
            ResidentNeed::Speak(x) => ResidentNeedView::Speak(x@),
            ResidentNeed::Publish(x) => ResidentNeedView::Publish(x@),
            ResidentNeed::Save => ResidentNeedView::Save,
            ResidentNeed::Finish(x) => ResidentNeedView::Finish(told(*x)),
        }
    }
}

/// What came of it.
#[derive(Debug)]
pub enum ResidentEvent {
    Received { command: Option<Command> },
    Answered { answer: Result<Json, Failure> },
    /// A tick was done, and this is the time.
    Ticked { time: u64 },
    Done,
    Failed(Failure),
}

pub enum ResidentEventView {
    Received { command: Option<CommandView> },
    Answered { answer: Result<JsonView, FailureView> },
    Ticked { time: u64 },
    Done,
    Failed(FailureView),
}

impl View for ResidentEvent {
    type V = ResidentEventView;

    open spec fn view(&self) -> ResidentEventView {
        match self {
            ResidentEvent::Received { command } => ResidentEventView::Received {
                command: (match command { Some(command) => Some(command@), None => None }),
            },
            ResidentEvent::Answered { answer } => ResidentEventView::Answered {
                answer: reported(*answer),
            },
            ResidentEvent::Ticked { time } => ResidentEventView::Ticked { time: *time },
            ResidentEvent::Done => ResidentEventView::Done,
            ResidentEvent::Failed(x) => ResidentEventView::Failed(x@),
        }
    }
}

/// The agent, where the resident process stands, and what it needs next.
pub struct ResidentTurn {
    pub rt: RuntimeView,
    pub stage: ResidentStageView,
    pub need: ResidentNeedView,
}

/// The process ends: what the user asked for last is kept.
pub open spec fn resident_closes(rt: RuntimeView) -> ResidentTurn {
    ResidentTurn {
        rt: rt.with_state(
            StateView { paused: rt.controls.paused, away: rt.controls.away, ..rt.state },
        ),
        stage: ResidentStageView::Closing,
        need: ResidentNeedView::Save,
    }
}

/// A round begins, unless the process is to stop.
pub open spec fn resident_round(rt: RuntimeView) -> ResidentTurn {
    if rt.controls.stop {
        resident_closes(rt)
    } else {
        ResidentTurn {
            rt,
            stage: ResidentStageView::Receiving,
            need: ResidentNeedView::Receive,
        }
    }
}

pub open spec fn resident_publishes(rt: RuntimeView) -> ResidentTurn {
    ResidentTurn {
        rt,
        stage: ResidentStageView::Publishing,
        need: ResidentNeedView::Publish(status_json(rt.state)),
    }
}

pub open spec fn resident_ends(rt: RuntimeView, res: Result<(), FailureView>) -> ResidentTurn {
    ResidentTurn { rt, stage: ResidentStageView::Finished, need: ResidentNeedView::Finish(res) }
}

/// What waits to be said is said, where anything is said at all, once the state is kept without it:
/// nothing is said twice.
pub open spec fn resident_ticked(config: Config, rt: RuntimeView, time: u64) -> ResidentTurn {
    if config.voice.enabled {
        let (now, item) = spoken(config, rt, time);
        match item {
            Some(item) => ResidentTurn {
                rt: now,
                stage: ResidentStageView::Keeping { text: item.text },
                need: ResidentNeedView::Save,
            },
            None => resident_publishes(now),
        }
    } else {
        resident_publishes(rt)
    }
}

/// How the resident process goes on after `event`: every command that waits is carried out before
/// the next tick.
pub open spec fn resident_step(
    config: Config,
    rt: RuntimeView,
    stage: ResidentStageView,
    event: ResidentEventView,
) -> ResidentTurn {
    match (stage, event) {
        (ResidentStageView::Receiving, ResidentEventView::Received { command }) => match command {
            None => if rt.stopped {
                resident_closes(rt)
            } else {
                ResidentTurn {
                    rt,
                    stage: ResidentStageView::Ticking,
                    need: ResidentNeedView::Tick,
                }
            },
            Some(command) => ResidentTurn {
                rt,
                stage: ResidentStageView::Obeying { command },
                need: if command is Listen {
                    ResidentNeedView::Listen
                } else {
                    ResidentNeedView::Obey(command)
                },
            },
        },
        (ResidentStageView::Obeying { command }, ResidentEventView::Answered { answer }) =>
        ResidentTurn {
            rt,
            stage: ResidentStageView::Reporting,
            need: ResidentNeedView::Report {
                answer,
                spoken: if answer is Ok && config.voice.enabled {
                    acknowledged(rt, command)
                } else {
                    None
                },
            },
        },
        (ResidentStageView::Reporting, ResidentEventView::Done) => ResidentTurn {
            rt,
            stage: ResidentStageView::Receiving,
            need: ResidentNeedView::Receive,
        },
        (ResidentStageView::Ticking, ResidentEventView::Ticked { time }) => resident_ticked(
            config,
            rt,
            time,
        ),
        (ResidentStageView::Keeping { text }, ResidentEventView::Done) => ResidentTurn {
            rt,
            stage: ResidentStageView::Speaking,
            need: ResidentNeedView::Speak(text),
        },
        (ResidentStageView::Speaking, ResidentEventView::Done) => resident_publishes(rt),
        (ResidentStageView::Publishing, ResidentEventView::Done) => resident_round(rt),
        (ResidentStageView::Closing, ResidentEventView::Done) => resident_ends(rt, Ok(())),
        (_, ResidentEventView::Failed(failure)) => resident_ends(rt, Err(failure)),
        _ => resident_ends(rt, Err(FailureView::Refused(ErrorView::Unexpected))),
    }
}

impl Clone for Command {
    fn clone(&self) -> (res: Command)
        ensures
            res@ == self@,
    {
        match self {
            Command::Status => Command::Status,
            Command::Pause => Command::Pause,
            Command::Resume => Command::Resume,
            Command::Away { enabled } => Command::Away { enabled: *enabled },
            Command::Rundown => Command::Rundown,
            Command::Ask { text } => Command::Ask { text: text.clone() },
            Command::Research { query } => Command::Research { query: query.clone() },
            Command::Undo { job_id } => Command::Undo { job_id: job_id.clone() },
            Command::Retry { job_id } => Command::Retry { job_id: job_id.clone() },
            Command::Reconcile { job_id } => Command::Reconcile { job_id: job_id.clone() },
            Command::Reprocess { job_id } => Command::Reprocess { job_id: job_id.clone() },
            Command::Dismiss { job_id } => Command::Dismiss { job_id: job_id.clone() },
            Command::UndoLast => Command::UndoLast,
            Command::SummarizeDiscord { channel } => Command::SummarizeDiscord {
                channel: copy_text(channel),
            },
            Command::ReadLast => Command::ReadLast,
            Command::Why => Command::Why,
            Command::Listen => Command::Listen,
            Command::Stop => Command::Stop,
        }
    }
}

impl Runtime {
    fn resident_close(&mut self) -> (res: (ResidentStage, ResidentNeed))
        ensures
            (ResidentTurn { rt: final(self)@, stage: res.0@, need: res.1@ }) == resident_closes(
                old(self)@,
            ),
            final(self).config == old(self).config,
    {
        self.state.paused = self.controls.paused;
        self.state.away = self.controls.away;
        (ResidentStage::Closing, ResidentNeed::Save)
    }

    fn resident_publish(&self) -> (res: (ResidentStage, ResidentNeed))
        ensures
            (ResidentTurn { rt: self@, stage: res.0@, need: res.1@ }) == resident_publishes(self@),
    {
        (ResidentStage::Publishing, ResidentNeed::Publish(self.status()))
    }

    fn resident_tick(&mut self, time: u64) -> (res: (ResidentStage, ResidentNeed))
        ensures
            (ResidentTurn { rt: final(self)@, stage: res.0@, need: res.1@ }) == resident_ticked(
                old(self).config,
                old(self)@,
                time,
            ),
            final(self).config == old(self).config,
    {
        if self.config.voice.enabled {
            match self.take_announcement(time) {
                Some(item) => (ResidentStage::Keeping { text: item.text }, ResidentNeed::Save),
                None => self.resident_publish(),
            }
        } else {
            self.resident_publish()
        }
    }

    /// Begins a round of the resident process.
    pub fn reside(&mut self) -> (res: (ResidentStage, ResidentNeed))
        ensures
            (ResidentTurn { rt: final(self)@, stage: res.0@, need: res.1@ }) == resident_round(
                old(self)@,
            ),
            final(self).config == old(self).config,
    {
        if self.controls.stop {
            self.resident_close()
        } else {
            (ResidentStage::Receiving, ResidentNeed::Receive)
        }
    }

    /// Goes on with the resident process after `event`.
    pub fn reside_on(&mut self, stage: ResidentStage, event: ResidentEvent) -> (res: (
        ResidentStage,
        ResidentNeed,
    ))
        ensures
            (ResidentTurn { rt: final(self)@, stage: res.0@, need: res.1@ }) == resident_step(
                old(self).config,
                old(self)@,
                stage@,
                event@,
            ),
            final(self).config == old(self).config,
    {
        match (stage, event) {
            (ResidentStage::Receiving, ResidentEvent::Received { command }) => match command {
                None => if self.stopped {
                    self.resident_close()
                } else {
                    (ResidentStage::Ticking, ResidentNeed::Tick)
                },
                Some(command) => {
                    let need = match &command {
                        Command::Listen => ResidentNeed::Listen,
                        _ => ResidentNeed::Obey(command.clone()),
                    };
                    (ResidentStage::Obeying { command }, need)
                },
            },
            (ResidentStage::Obeying { command }, ResidentEvent::Answered { answer }) => {
                let spoken = if answer.is_ok() && self.config.voice.enabled {
                    acknowledgement(&command, self)
                } else {
                    None
                };
                (ResidentStage::Reporting, ResidentNeed::Report { answer, spoken })
            },
            (ResidentStage::Reporting, ResidentEvent::Done) => (
                ResidentStage::Receiving,
                ResidentNeed::Receive,
            ),
            (ResidentStage::Ticking, ResidentEvent::Ticked { time }) => self.resident_tick(time),
            (ResidentStage::Keeping { text }, ResidentEvent::Done) => (
                ResidentStage::Speaking,
                ResidentNeed::Speak(text),
            ),
            (ResidentStage::Speaking, ResidentEvent::Done) => self.resident_publish(),
            (ResidentStage::Publishing, ResidentEvent::Done) => self.reside(),
            (ResidentStage::Closing, ResidentEvent::Done) => (
                ResidentStage::Finished,
                ResidentNeed::Finish(Ok(())),
            ),
            (_, ResidentEvent::Failed(failure)) => (
                ResidentStage::Finished,
                ResidentNeed::Finish(Err(failure)),
            ),
            _ => (
                ResidentStage::Finished,
                ResidentNeed::Finish(Err(Failure::Refused(Error::Unexpected))),
            ),
        }
    }
}

/// A job waits for this time.
pub open spec fn some_pending(jobs: Seq<JobView>, time: u64) -> bool {
    exists|i: int|
        0 <= i < jobs.len() && (#[trigger] jobs[i]).status == Status::Pending
            && jobs[i].next_attempt <= time
}

/// A batch that has done so many jobs does another.
pub open spec fn goes_on(config: Config, jobs: Seq<JobView>, done: usize, time: u64) -> bool {
    done == 0 || done < config.agent.max_jobs && some_pending(jobs, time)
}

/// A batch does one job and then goes on as long as one waits for this time, but no further than
/// the queue is long at most.
pub proof fn law_batch(config: Config, jobs: Seq<JobView>, done: usize, time: u64)
    ensures
        goes_on(config, jobs, 0, time),
        done > 0 && done >= config.agent.max_jobs ==> !goes_on(config, jobs, done, time),
        0 < done < config.agent.max_jobs ==> (goes_on(config, jobs, done, time) <==> exists|i: int|
            0 <= i < jobs.len() && (#[trigger] jobs[i]).status == Status::Pending
                && jobs[i].next_attempt <= time),
{
}

impl Runtime {
    fn is_pending(&self, time: u64) -> (res: bool)
        ensures
            res == some_pending(self@.state.jobs, time),
    {
        let ghost all = job_views(self.state.jobs@);
        let mut i: usize = 0;
        while i < self.state.jobs.len()
            invariant
                i <= self.state.jobs.len(),
                all == job_views(self.state.jobs@),
                forall|j: int|
                    0 <= j < i ==> !((#[trigger] all[j]).status == Status::Pending
                        && all[j].next_attempt <= time),
            decreases self.state.jobs.len() - i,
        {
            assert(all[i as int] == self.state.jobs@[i as int]@);
            if self.state.jobs[i].status == Status::Pending && self.state.jobs[i].next_attempt
                <= time {
                return true;
            }
            i = i + 1;
        }
        false
    }
}

impl Runtime {
    /// Whether a single batch goes on after `done` ticks: one discovery or rundown, and one attempt
    /// for each job present afterward.
    pub fn batch_goes_on(&self, done: usize, time: u64) -> (res: bool)
        ensures
            res == goes_on(self.config, self@.state.jobs, done, time),
    {
        done == 0 || (done < self.config.agent.max_jobs && self.is_pending(time))
    }
}

// ---------------------------------------------------------------------------
// The control socket

/// Where the control socket stands: in a private directory outside the store, under a path that a
/// socket can have.
pub open spec fn socket_of(private: bool, dir: Seq<char>, data: Seq<char>) -> Result<
    Seq<char>,
    ErrorView,
> {
    if !private {
        Err(ErrorView::ControlDirectory)
    } else if beneath(data, dir) is Some {
        Err(ErrorView::ControlInsideData)
    } else if size(entry_of(dir, "agent.sock"@)) >= 100 {
        Err(ErrorView::ControlPathLength)
    } else {
        Ok(entry_of(dir, "agent.sock"@))
    }
}

/// Where the control socket stands. `private` says whether the directory `dir` belongs to this
/// user alone; both paths are full paths.
pub fn socket_path(private: bool, dir: &str, data: &str) -> (res: Result<String, Error>)
    ensures
        (match res {
            Ok(path) => Ok(path@),
            Err(error) => Err(error@),
        }) == socket_of(private, dir@, data@),
{
    if !private {
        return Err(Error::ControlDirectory);
    }
    if relative(data, dir).is_some() {
        return Err(Error::ControlInsideData);
    }
    let path = join(dir, "agent.sock");
    if byte_len(path.as_str()) >= 100 {
        return Err(Error::ControlPathLength);
    }
    Ok(path)
}

/// Whether a path that exists may be taken over for the control socket: it must be a socket that
/// nobody answers on.
pub fn take_over(socket: bool, answers: bool) -> (res: Result<(), Error>)
    ensures
        seen(res) == if !socket {
            Err(ErrorView::ControlNotSocket)
        } else if answers {
            Err(ErrorView::ControlActive)
        } else {
            Ok(())
        },
{
    if !socket {
        Err(Error::ControlNotSocket)
    } else if answers {
        Err(Error::ControlActive)
    } else {
        Ok(())
    }
}

/// The answer to a command that came over the socket: the status as it was last shown with what
/// is asked for now, or whether the command was taken into the queue.
pub open spec fn control_reply(
    command: CommandView,
    snapshot: JsonView,
    controls: Controls,
    queued: Result<(), Seq<char>>,
) -> (Controls, JsonView) {
    if command is Status {
        (
            controls,
            snapshot.with("paused_requested"@, JsonView::Bool(controls.paused)).with(
                "away_requested"@,
                JsonView::Bool(controls.away),
            ),
        )
    } else {
        match queued {
            Ok(_) => (
                heeded(controls, command),
                JsonView::object().with("accepted"@, JsonView::Bool(true)).with(
                    "durable"@,
                    JsonView::Bool(false),
                ).with(
                    "note"@,
                    JsonView::Text(
                        "queued in the running process; status shows persisted jobs after processing"@,
                    ),
                ),
            ),
            Err(words) => (
                controls,
                error_json(FailureView::Refused(ErrorView::ControlQueueFull(words))),
            ),
        }
    }
}

/// Answers a command that came over the socket. `queued` says whether the queue took it, or why
/// not; a command is heeded only if it did, so that a full queue cannot lose it. A status is not
/// queued.
pub fn control(
    command: &Command,
    snapshot: Json,
    controls: &mut Controls,
    queued: Result<(), String>,
) -> (res: Json)
    ensures
        (*final(controls), res@) == control_reply(
            command@,
            snapshot@,
            *old(controls),
            read_as(queued),
        ),
{
    match command {
        Command::Status => snapshot.with("paused_requested", Json::Bool(controls.paused)).with(
            "away_requested",
            Json::Bool(controls.away),
        ),
        _ => match queued {
            Ok(()) => {
                controls.immediate(command);
                Json::object().with("accepted", Json::Bool(true)).with(
                    "durable",
                    Json::Bool(false),
                ).with(
                    "note",
                    Json::string(
                        "queued in the running process; status shows persisted jobs after processing",
                    ),
                )
            },
            Err(words) => error_document(&Failure::Refused(Error::ControlQueueFull(words))),
        },
    }
}

/// Admits the size of an answer that came over the socket.
pub fn check_response(len: u64) -> (res: Result<(), Error>)
    ensures
        seen(res) == if fits(len) {
            Ok(())
        } else {
            Err(ErrorView::ControlResponse)
        },
{
    if len <= STATE_LIMIT {
        Ok(())
    } else {
        Err(Error::ControlResponse)
    }
}

/// Whether a request of the command line is a document rather than words.
pub fn is_document(text: &str) -> (res: bool)
    ensures
        res == begins(trimmed(text@), "{"@),
{
    starts_with(trim(text).as_str(), "{")
}

// ---------------------------------------------------------------------------
// The doctor

/// What was found on the machine.
#[derive(Debug, Clone, Copy)]
pub struct Findings {
    pub cheap_key: bool,
    pub advanced_key: bool,
    pub maildir: bool,
    pub discord_token: bool,
    pub speech: bool,
    pub listening: bool,
}

/// Where a program is looked for.
#[derive(Debug)]
pub enum Lookup {
    Nowhere,
    /// Under this path.
    File(String),
    /// Under this name in the directories of the search path.
    Path(String),
}

pub enum LookupView {
    Nowhere,
    File(Seq<char>),
    Path(Seq<char>),
}

impl View for Lookup {
    type V = LookupView;

    open spec fn view(&self) -> LookupView {
        match self {
            Lookup::Nowhere => LookupView::Nowhere,
            Lookup::File(path) => LookupView::File(path@),
            Lookup::Path(name) => LookupView::Path(name@),
        }
    }
}

/// Where the program of a command is looked for.
pub fn lookup(argv: &Vec<String>) -> (res: Lookup)
    ensures
        res@ == if argv@.len() == 0 {
            LookupView::Nowhere
        } else if occurs(argv@[0]@, "/"@) {
            LookupView::File(argv@[0]@)
        } else {
            LookupView::Path(argv@[0]@)
        },
{
    if argv.len() == 0 {
        Lookup::Nowhere
    } else if contains(argv[0].as_str(), "/") {
        Lookup::File(argv[0].clone())
    } else {
        Lookup::Path(argv[0].clone())
    }
}

/// Whether the environment gives a key.
pub fn key_present(value: &Option<String>) -> (res: bool)
    ensures
        res == match maybe(*value) {
            Some(text) => !blank(text),
            None => false,
        },
{
    match value {
        Some(text) => !is_blank(text.as_str()),
        None => false,
    }
}

pub open spec fn doctor_json(config: Config, found: Findings) -> JsonView {
    JsonView::object().with(
        "advanced_model_key_present"@,
        JsonView::Bool(found.advanced_key),
    ).with("cheap_model_key_present"@, JsonView::Bool(found.cheap_key)).with(
        "continuous_listening"@,
        JsonView::Bool(config.agent.voice.continuous),
    ).with("control_dir"@, JsonView::Text(config.agent.control_dir@)).with(
        "discord_enabled"@,
        JsonView::Bool(config.agent.discord.enabled),
    ).with("discord_send_enabled"@, JsonView::Bool(config.agent.discord.allow_send)).with(
        "discord_token_present"@,
        JsonView::Bool(found.discord_token),
    ).with("email_moves_enabled"@, JsonView::Bool(config.agent.email.apply_moves)).with(
        "listen_executable_found"@,
        JsonView::Bool(found.listening),
    ).with("maildir_configured"@, text_or_null(maybe(config.agent.email.maildir))).with(
        "maildir_exists"@,
        JsonView::Bool(found.maildir),
    ).with(
        "note"@,
        JsonView::Text(
            "Local checks only; credentials, remote permissions and audio hardware have not been tested."@,
        ),
    ).with(
        "research_sources"@,
        JsonView::number(sources(config.agent)),
    ).with("speech_executable_found"@, JsonView::Bool(found.speech)).with(
        "voice_enabled"@,
        JsonView::Bool(config.voice.enabled),
    )
}

/// How many sources of research are configured, as far as they can be counted.
pub open spec fn sources(config: AgentConfig) -> nat {
    let all = config.feeds@.len() + config.research_queries@.len();
    if all > u64::MAX {
        u64::MAX as nat
    } else {
        all
    }
}

/// Tells what is set up on this machine, without contacting anyone or showing a credential.
pub fn doctor(config: &Config, found: Findings) -> (res: Json)
    ensures
        res@ == doctor_json(*config, found),
{
    let count: u64 = (config.agent.feeds.len() as u64).saturating_add(
        config.agent.research_queries.len() as u64,
    );
    Json::object().with("advanced_model_key_present", Json::Bool(found.advanced_key)).with(
        "cheap_model_key_present",
        Json::Bool(found.cheap_key),
    ).with("continuous_listening", Json::Bool(config.agent.voice.continuous)).with(
        "control_dir",
        Json::string(config.agent.control_dir.as_str()),
    ).with("discord_enabled", Json::Bool(config.agent.discord.enabled)).with(
        "discord_send_enabled",
        Json::Bool(config.agent.discord.allow_send),
    ).with("discord_token_present", Json::Bool(found.discord_token)).with(
        "email_moves_enabled",
        Json::Bool(config.agent.email.apply_moves),
    ).with("listen_executable_found", Json::Bool(found.listening)).with(
        "maildir_configured",
        Json::optional(&config.agent.email.maildir),
    ).with("maildir_exists", Json::Bool(found.maildir)).with(
        "note",
        Json::string(
            "Local checks only; credentials, remote permissions and audio hardware have not been tested.",
        ),
    ).with("research_sources", Json::number(count)).with(
        "speech_executable_found",
        Json::Bool(found.speech),
    ).with("voice_enabled", Json::Bool(config.voice.enabled))
}

// ---------------------------------------------------------------------------
// What the resident process does

/// What is heeded at once is what the command names: a pause and its end, going away and coming
/// back, and a stop, which nothing takes back; the others stay as they were.
pub proof fn law_heeded(controls: Controls, enabled: bool)
    ensures
        heeded(controls, CommandView::Pause).paused,
        !heeded(controls, CommandView::Resume).paused,
        heeded(controls, CommandView::Away { enabled }).away == enabled,
        heeded(controls, CommandView::Stop).stop,
        forall|command: CommandView|
            {
                let now = #[trigger] heeded(controls, command);
                &&& command !is Pause && command !is Resume ==> now.paused == controls.paused
                &&& command !is Away ==> now.away == controls.away
                &&& command !is Stop ==> now.stop == controls.stop
            },
{
}

/// A command that waits is carried out before the next tick, the microphone is used for no other
/// than the one to listen, and what came of it is told as it came, with an acknowledgement if it
/// succeeded and there is a voice; then the next command is taken.
pub proof fn law_commands_are_obeyed(
    config: Config,
    rt: RuntimeView,
    command: CommandView,
    answer: Result<JsonView, FailureView>,
)
    ensures
        ({
            let turn = resident_step(
                config,
                rt,
                ResidentStageView::Receiving,
                ResidentEventView::Received { command: Some(command) },
            );
            let told = resident_step(
                config,
                rt,
                turn.stage,
                ResidentEventView::Answered { answer },
            );
            let next = resident_step(config, rt, told.stage, ResidentEventView::Done);
            &&& turn.rt == rt && told.rt == rt && next.rt == rt
            &&& command is Listen ==> turn.need == ResidentNeedView::Listen
            &&& command !is Listen ==> turn.need == ResidentNeedView::Obey(command)
            &&& told.need is Report
            &&& told.need->answer == answer
            &&& answer is Ok && config.voice.enabled ==> told.need->spoken == acknowledged(
                rt,
                command,
            )
            &&& answer is Err || !config.voice.enabled ==> told.need->spoken is None
            &&& next.need == ResidentNeedView::Receive
            &&& next.stage == ResidentStageView::Receiving
        }),
{
}

/// Without a command the process does a tick, unless it was stopped: then what the user switched
/// last is kept, and it ends.
pub proof fn law_ticks_or_ends(config: Config, rt: RuntimeView)
    ensures
        ({
            let turn = resident_step(
                config,
                rt,
                ResidentStageView::Receiving,
                ResidentEventView::Received { command: None },
            );
            let end = resident_step(config, turn.rt, turn.stage, ResidentEventView::Done);
            &&& !rt.stopped ==> turn.rt == rt && turn.need == ResidentNeedView::Tick
            &&& rt.stopped ==> closes(config, rt, turn)
        }),
        ({
            let turn = resident_step(
                config,
                rt,
                ResidentStageView::Publishing,
                ResidentEventView::Done,
            );
            &&& !rt.controls.stop ==> turn.rt == rt && turn.need == ResidentNeedView::Receive
            &&& rt.controls.stop ==> closes(config, rt, turn)
        }),
{
}

/// The process ends: what the user switched last is kept, and then nothing more is done.
pub open spec fn closes(config: Config, rt: RuntimeView, turn: ResidentTurn) -> bool {
    let end = resident_step(config, turn.rt, turn.stage, ResidentEventView::Done);
    &&& turn.need == ResidentNeedView::Save
    &&& turn.rt.state.paused == rt.controls.paused
    &&& turn.rt.state.away == rt.controls.away
    &&& turn.rt == rt.with_state(
        StateView { paused: turn.rt.state.paused, away: turn.rt.state.away, ..rt.state },
    )
    &&& end.need == ResidentNeedView::Finish(Ok(()))
    &&& end.rt == turn.rt
}

/// After a tick the next announcement is spoken, if there is one to speak: it is taken from the
/// line, the state is kept, and only then is it said; the status is shown in either case.
pub proof fn law_announcements_are_spoken(config: Config, rt: RuntimeView, time: u64)
    ensures
        ({
            let turn = resident_step(
                config,
                rt,
                ResidentStageView::Ticking,
                ResidentEventView::Ticked { time },
            );
            let said = resident_step(config, turn.rt, turn.stage, ResidentEventView::Done);
            let shown = resident_step(config, said.rt, said.stage, ResidentEventView::Done);
            let (now, item) = spoken(config, rt, time);
            &&& item is None ==> turn.rt == rt && turn.need == ResidentNeedView::Publish(
                status_json(rt.state),
            )
            &&& item is Some ==> {
                &&& turn.rt == now && turn.need == ResidentNeedView::Save
                &&& said.rt == now && said.need == ResidentNeedView::Speak(item->0.text)
                &&& shown.rt == now && shown.need == ResidentNeedView::Publish(
                    status_json(now.state),
                )
            }
        }),
{
}

/// Each command is acknowledged in its own words, and what is read out or ended is not.
pub proof fn law_acknowledgements(rt: RuntimeView, text: Seq<char>, channel: Option<Seq<char>>)
    ensures
        acknowledged(rt, CommandView::Status) == Some(
            "I have "@ + numeral(rt.state.jobs.len()) + " tasks waiting and "@ + numeral(
                rt.state.recent.len(),
            ) + " recent completed tasks. Away mode is "@ + (if rt.state.away {
                "on"@
            } else {
                "off"@
            }) + "."@,
        ),
        acknowledged(rt, CommandView::Pause) == Some(
            "I've paused scheduled work. Say Lion, resume when you're ready."@,
        ),
        acknowledged(rt, CommandView::Resume) == Some("I've resumed scheduled work."@),
        acknowledged(rt, CommandView::Away { enabled: true }) == Some(
            "Away mode is "@ + "on"@ + "."@,
        ),
        acknowledged(rt, CommandView::Away { enabled: false }) == Some(
            "Away mode is "@ + "off"@ + "."@,
        ),
        acknowledged(rt, CommandView::Rundown) == Some("I've scheduled a rundown."@),
        acknowledged(rt, CommandView::Ask { text }) == Some("I'll work on that."@),
        acknowledged(rt, CommandView::Research { query: text }) == Some(
            "I'll look for relevant research."@,
        ),
        acknowledged(rt, CommandView::Undo { job_id: text }) == Some(
            "I've queued the email restore."@,
        ),
        acknowledged(rt, CommandView::UndoLast) == Some("I've queued the email restore."@),
        acknowledged(rt, CommandView::Retry { job_id: text }) == Some(
            "I've queued another attempt."@,
        ),
        acknowledged(rt, CommandView::Reprocess { job_id: text }) == Some(
            "I've queued another attempt."@,
        ),
        acknowledged(rt, CommandView::Reconcile { job_id: text }) == Some(
            "I'll check whether that reply was delivered."@,
        ),
        acknowledged(rt, CommandView::Dismiss { job_id: text }) == Some(
            "I've dismissed that task."@,
        ),
        acknowledged(rt, CommandView::SummarizeDiscord { channel }) == Some(
            "I'll summarize the Discord conversation."@,
        ),
        acknowledged(rt, CommandView::ReadLast) is None,
        acknowledged(rt, CommandView::Why) is None,
        acknowledged(rt, CommandView::Listen) is None,
        acknowledged(rt, CommandView::Stop) is None,
{
}

/// Who asks for the status over the socket gets the last that was shown, and what was asked of the
/// process since; any other command is accepted if the process can take it, and is heeded then and
/// not otherwise.
pub proof fn law_control_reply(
    command: CommandView,
    snapshot: JsonView,
    controls: Controls,
    queued: Result<(), Seq<char>>,
    name: Seq<char>,
)
    requires
        snapshot is Object,
    ensures
        ({
            let (now, reply) = control_reply(command, snapshot, controls, queued);
            &&& command is Status ==> {
                &&& now == controls
                &&& snapshot.get(name) is Some ==> reply.get(name) == snapshot.get(name)
                &&& snapshot.get("paused_requested"@) is None ==> reply.get("paused_requested"@)
                    == Some(JsonView::Bool(controls.paused))
                &&& snapshot.get("away_requested"@) is None ==> reply.get("away_requested"@) == Some(
                    JsonView::Bool(controls.away),
                )
            }
            &&& command !is Status && queued is Ok ==> {
                &&& now == heeded(controls, command)
                &&& reply.get("accepted"@) == Some(JsonView::Bool(true))
                &&& reply.get("durable"@) == Some(JsonView::Bool(false))
                &&& reply.get("note"@) == Some(
                    JsonView::Text(
                        "queued in the running process; status shows persisted jobs after processing"@,
                    ),
                )
                &&& reply.get("error"@) is None
            }
            &&& command !is Status && queued is Err ==> {
                &&& now == controls
                &&& reply.get("accepted"@) is None
                &&& reply.get("error"@) == Some(
                    JsonView::Text(ErrorView::ControlQueueFull(queued->Err_0).text()),
                )
            }
        }),
{
    lemma_documents();
    lemma_control_names();
}

/// The doctor tells what the settings ask for and what was found, each under its own name.
pub proof fn law_doctor(config: Config, found: Findings)
    ensures
        ({
            let doc = doctor_json(config, found);
            &&& doc.get("cheap_model_key_present"@) == Some(JsonView::Bool(found.cheap_key))
            &&& doc.get("advanced_model_key_present"@) == Some(JsonView::Bool(found.advanced_key))
            &&& doc.get("maildir_exists"@) == Some(JsonView::Bool(found.maildir))
            &&& doc.get("discord_token_present"@) == Some(JsonView::Bool(found.discord_token))
            &&& doc.get("speech_executable_found"@) == Some(JsonView::Bool(found.speech))
            &&& doc.get("listen_executable_found"@) == Some(JsonView::Bool(found.listening))
            &&& doc.get("continuous_listening"@) == Some(
                JsonView::Bool(config.agent.voice.continuous),
            )
            &&& doc.get("control_dir"@) == Some(JsonView::Text(config.agent.control_dir@))
            &&& doc.get("discord_enabled"@) == Some(JsonView::Bool(config.agent.discord.enabled))
            &&& doc.get("discord_send_enabled"@) == Some(
                JsonView::Bool(config.agent.discord.allow_send),
            )
            &&& doc.get("email_moves_enabled"@) == Some(
                JsonView::Bool(config.agent.email.apply_moves),
            )
            &&& doc.get("maildir_configured"@) == Some(
                match config.agent.email.maildir {
                    Some(maildir) => JsonView::Text(maildir@),
                    None => JsonView::Null,
                },
            )
            &&& doc.get("voice_enabled"@) == Some(JsonView::Bool(config.voice.enabled))
            &&& config.agent.feeds@.len() + config.agent.research_queries@.len() <= u64::MAX ==> doc
                .get("research_sources"@) == Some(
                JsonView::number(config.agent.feeds@.len() + config.agent.research_queries@.len()),
            )
        }),
{
    lemma_documents();
    lemma_doctor_names();
}

/// The socket stands in the control directory, which must be private and outside of the data, so
/// that its path fits.
pub proof fn law_socket(private: bool, dir: Seq<char>, data: Seq<char>)
    requires
        dir.len() > 0,
        dir.last() != '/',
    ensures
        ({
            let res = socket_of(private, dir, data);
            let path = dir + "/"@ + "agent.sock"@;
            &&& res is Ok <==> private && beneath(data, dir) is None && size(path) < 100
            &&& res is Ok ==> res->Ok_0 == path
            &&& !private ==> res == Err::<Seq<char>, ErrorView>(ErrorView::ControlDirectory)
            &&& private && beneath(data, dir) is Some ==> res == Err::<Seq<char>, ErrorView>(
                ErrorView::ControlInsideData,
            )
        }),
{
}

proof fn lemma_control_names()
    ensures
        "paused_requested"@ != "away_requested"@,
        "accepted"@ != "durable"@,
        "accepted"@ != "note"@,
        "accepted"@ != "error"@,
        "durable"@ != "note"@,
        "durable"@ != "error"@,
        "note"@ != "error"@,
{
    reveal_strlit("paused_requested");
    reveal_strlit("away_requested");
    reveal_strlit("accepted");
    reveal_strlit("durable");
    reveal_strlit("note");
    reveal_strlit("error");
    assert("paused_requested"@.len() == 16);
    assert("away_requested"@.len() == 14);
    assert("accepted"@.len() == 8);
    assert("durable"@.len() == 7);
    assert("note"@.len() == 4);
    assert("error"@.len() == 5);
}

proof fn lemma_doctor_names()
    ensures
        "advanced_model_key_present"@ != "cheap_model_key_present"@,
        "advanced_model_key_present"@ != "continuous_listening"@,
        "advanced_model_key_present"@ != "control_dir"@,
        "advanced_model_key_present"@ != "discord_enabled"@,
        "advanced_model_key_present"@ != "discord_send_enabled"@,
        "advanced_model_key_present"@ != "discord_token_present"@,
        "advanced_model_key_present"@ != "email_moves_enabled"@,
        "advanced_model_key_present"@ != "listen_executable_found"@,
        "advanced_model_key_present"@ != "maildir_configured"@,
        "advanced_model_key_present"@ != "maildir_exists"@,
        "advanced_model_key_present"@ != "note"@,
        "advanced_model_key_present"@ != "research_sources"@,
        "advanced_model_key_present"@ != "speech_executable_found"@,
        "advanced_model_key_present"@ != "voice_enabled"@,
        "cheap_model_key_present"@ != "continuous_listening"@,
        "cheap_model_key_present"@ != "control_dir"@,
        "cheap_model_key_present"@ != "discord_enabled"@,
        "cheap_model_key_present"@ != "discord_send_enabled"@,
        "cheap_model_key_present"@ != "discord_token_present"@,
        "cheap_model_key_present"@ != "email_moves_enabled"@,
        "cheap_model_key_present"@ != "listen_executable_found"@,
        "cheap_model_key_present"@ != "maildir_configured"@,
        "cheap_model_key_present"@ != "maildir_exists"@,
        "cheap_model_key_present"@ != "note"@,
        "cheap_model_key_present"@ != "research_sources"@,
        "cheap_model_key_present"@ != "speech_executable_found"@,
        "cheap_model_key_present"@ != "voice_enabled"@,
        "continuous_listening"@ != "control_dir"@,
        "continuous_listening"@ != "discord_enabled"@,
        "continuous_listening"@ != "discord_send_enabled"@,
        "continuous_listening"@ != "discord_token_present"@,
        "continuous_listening"@ != "email_moves_enabled"@,
        "continuous_listening"@ != "listen_executable_found"@,
        "continuous_listening"@ != "maildir_configured"@,
        "continuous_listening"@ != "maildir_exists"@,
        "continuous_listening"@ != "note"@,
        "continuous_listening"@ != "research_sources"@,
        "continuous_listening"@ != "speech_executable_found"@,
        "continuous_listening"@ != "voice_enabled"@,
        "control_dir"@ != "discord_enabled"@,
        "control_dir"@ != "discord_send_enabled"@,
        "control_dir"@ != "discord_token_present"@,
        "control_dir"@ != "email_moves_enabled"@,
        "control_dir"@ != "listen_executable_found"@,
        "control_dir"@ != "maildir_configured"@,
        "control_dir"@ != "maildir_exists"@,
        "control_dir"@ != "note"@,
        "control_dir"@ != "research_sources"@,
        "control_dir"@ != "speech_executable_found"@,
        "control_dir"@ != "voice_enabled"@,
        "discord_enabled"@ != "discord_send_enabled"@,
        "discord_enabled"@ != "discord_token_present"@,
        "discord_enabled"@ != "email_moves_enabled"@,
        "discord_enabled"@ != "listen_executable_found"@,
        "discord_enabled"@ != "maildir_configured"@,
        "discord_enabled"@ != "maildir_exists"@,
        "discord_enabled"@ != "note"@,
        "discord_enabled"@ != "research_sources"@,
        "discord_enabled"@ != "speech_executable_found"@,
        "discord_enabled"@ != "voice_enabled"@,
        "discord_send_enabled"@ != "discord_token_present"@,
        "discord_send_enabled"@ != "email_moves_enabled"@,
        "discord_send_enabled"@ != "listen_executable_found"@,
        "discord_send_enabled"@ != "maildir_configured"@,
        "discord_send_enabled"@ != "maildir_exists"@,
        "discord_send_enabled"@ != "note"@,
        "discord_send_enabled"@ != "research_sources"@,
        "discord_send_enabled"@ != "speech_executable_found"@,
        "discord_send_enabled"@ != "voice_enabled"@,
        "discord_token_present"@ != "email_moves_enabled"@,
        "discord_token_present"@ != "listen_executable_found"@,
        "discord_token_present"@ != "maildir_configured"@,
        "discord_token_present"@ != "maildir_exists"@,
        "discord_token_present"@ != "note"@,
        "discord_token_present"@ != "research_sources"@,
        "discord_token_present"@ != "speech_executable_found"@,
        "discord_token_present"@ != "voice_enabled"@,
        "email_moves_enabled"@ != "listen_executable_found"@,
        "email_moves_enabled"@ != "maildir_configured"@,
        "email_moves_enabled"@ != "maildir_exists"@,
        "email_moves_enabled"@ != "note"@,
        "email_moves_enabled"@ != "research_sources"@,
        "email_moves_enabled"@ != "speech_executable_found"@,
        "email_moves_enabled"@ != "voice_enabled"@,
        "listen_executable_found"@ != "maildir_configured"@,
        "listen_executable_found"@ != "maildir_exists"@,
        "listen_executable_found"@ != "note"@,
        "listen_executable_found"@ != "research_sources"@,
        "listen_executable_found"@ != "speech_executable_found"@,
        "listen_executable_found"@ != "voice_enabled"@,
        "maildir_configured"@ != "maildir_exists"@,
        "maildir_configured"@ != "note"@,
        "maildir_configured"@ != "research_sources"@,
        "maildir_configured"@ != "speech_executable_found"@,
        "maildir_configured"@ != "voice_enabled"@,
        "maildir_exists"@ != "note"@,
        "maildir_exists"@ != "research_sources"@,
        "maildir_exists"@ != "speech_executable_found"@,
        "maildir_exists"@ != "voice_enabled"@,
        "note"@ != "research_sources"@,
        "note"@ != "speech_executable_found"@,
        "note"@ != "voice_enabled"@,
        "research_sources"@ != "speech_executable_found"@,
        "research_sources"@ != "voice_enabled"@,
        "speech_executable_found"@ != "voice_enabled"@,
{
    reveal_strlit("advanced_model_key_present");
    reveal_strlit("cheap_model_key_present");
    reveal_strlit("continuous_listening");
    reveal_strlit("control_dir");
    reveal_strlit("discord_enabled");
    reveal_strlit("discord_send_enabled");
    reveal_strlit("discord_token_present");
    reveal_strlit("email_moves_enabled");
    reveal_strlit("listen_executable_found");
    reveal_strlit("maildir_configured");
    reveal_strlit("maildir_exists");
    reveal_strlit("note");
    reveal_strlit("research_sources");
    reveal_strlit("speech_executable_found");
    reveal_strlit("voice_enabled");
    assert("advanced_model_key_present"@.len() == 26);
    assert("cheap_model_key_present"@.len() == 23);
    assert("continuous_listening"@.len() == 20);
    assert("control_dir"@.len() == 11);
    assert("discord_enabled"@.len() == 15);
    assert("discord_send_enabled"@.len() == 20);
    assert("discord_token_present"@.len() == 21);
    assert("email_moves_enabled"@.len() == 19);
    assert("listen_executable_found"@.len() == 23);
    assert("maildir_configured"@.len() == 18);
    assert("maildir_exists"@.len() == 14);
    assert("note"@.len() == 4);
    assert("research_sources"@.len() == 16);
    assert("speech_executable_found"@.len() == 23);
    assert("voice_enabled"@.len() == 13);
    assert("cheap_model_key_present"@[0] != "listen_executable_found"@[0]);
    assert("cheap_model_key_present"@[0] != "speech_executable_found"@[0]);
    assert("continuous_listening"@[0] != "discord_send_enabled"@[0]);
    assert("listen_executable_found"@[0] != "speech_executable_found"@[0]);
}

/// What fails in the resident process ends it with that, and nothing is changed by it.
pub proof fn law_failed_round(
    config: Config,
    rt: RuntimeView,
    stage: ResidentStageView,
    failure: FailureView,
)
    ensures
        ({
            let turn = resident_step(config, rt, stage, ResidentEventView::Failed(failure));
            turn.rt == rt && turn.need == ResidentNeedView::Finish(Err(failure))
        }),
{
}

} // verus!
