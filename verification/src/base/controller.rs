//! Tasks of the command line, one at a time.
use crate::base::config::Config;
use crate::base::limits::Store;
use crate::base::models::{
    asking, chosen, complexity, complexity_for, Complexity, ModelCall, Router,
};
use crate::error::{Error, ErrorView};
use crate::failure::{read_as, reported, Failure, FailureView};
use crate::json::{get_in, lemma_documents, Json, JsonView};
use crate::tasks::email::{OrganizedEmail, OrganizedEmailView, Tier};
use crate::tasks::task::{Task, TaskView};
use crate::text::{decimal, lowered, maybe, numeral, size};
use vstd::prelude::*;

verus! {

/// Where a task stands.
#[derive(Debug)]
pub enum TaskStage {
    Measuring,
    Answering { model: String },
    Organizing,
    Announcing { record: OrganizedEmail },
    Crawling,
    Conversing,
    Summarizing,
    Speaking,
    Listening,
    Replying { transcript: String },
    SpeakingReply { transcript: String, answer: String },
    Finished,
}

pub enum TaskStageView {
    Measuring,
    Answering { model: Seq<char> },
    Organizing,
    Announcing { record: OrganizedEmailView },
    Crawling,
    Conversing,
    Summarizing,
    Speaking,
    Listening,
    Replying { transcript: Seq<char> },
    SpeakingReply { transcript: Seq<char>, answer: Seq<char> },
    Finished,
}

impl View for TaskStage {
    type V = TaskStageView;

    open spec fn view(&self) -> TaskStageView {
        match self {
            TaskStage::Measuring => TaskStageView::Measuring,
            TaskStage::Answering { model } => TaskStageView::Answering { model: model@ },
            TaskStage::Organizing => TaskStageView::Organizing,
            TaskStage::Announcing { record } => TaskStageView::Announcing { record: record@ },
            TaskStage::Crawling => TaskStageView::Crawling,
            TaskStage::Conversing => TaskStageView::Conversing,
            TaskStage::Summarizing => TaskStageView::Summarizing,
            TaskStage::Speaking => TaskStageView::Speaking,
            TaskStage::Listening => TaskStageView::Listening,
            TaskStage::Replying { transcript } => TaskStageView::Replying {
                transcript: transcript@,
            },
            TaskStage::SpeakingReply { transcript, answer } => TaskStageView::SpeakingReply {
                transcript: transcript@,
                answer: answer@,
            },
            TaskStage::Finished => TaskStageView::Finished,
        }
    }
}

/// What a task needs next.
#[derive(Debug)]
pub enum TaskNeed {
    /// Report the bytes that the store takes.
    Measure,
    /// Ask a model.
    Model { complexity: Complexity, instruction: String, data: String },
    /// Organize a message.
    Organize { path: String },
    /// Say this; that it cannot be said does not matter.
    Announce { text: String },
    /// Search for papers and save them.
    Crawl { query: String },
    /// Get a conversation of at most this many bytes.
    Conversation { channel: String, room: usize },
    /// Say this.
    Speak { text: String },
    /// Listen.
    Listen,
    /// Nothing more.
    Finish(Result<Json, Failure>),
}

pub enum TaskNeedView {
    Measure,
    Model { complexity: Complexity, instruction: Seq<char>, data: Seq<char> },
    Organize { path: Seq<char> },
    Announce { text: Seq<char> },
    Crawl { query: Seq<char> },
    Conversation { channel: Seq<char>, room: usize },
    Speak { text: Seq<char> },
    Listen,
    Finish(Result<JsonView, FailureView>),
}

impl View for TaskNeed {
    type V = TaskNeedView;

    open spec fn view(&self) -> TaskNeedView {
        match self {
            TaskNeed::Measure => TaskNeedView::Measure,
            TaskNeed::Model { complexity, instruction, data } => TaskNeedView::Model {
                complexity: *complexity,
                instruction: instruction@,
                data: data@,
            },
            TaskNeed::Organize { path } => TaskNeedView::Organize { path: path@ },
            TaskNeed::Announce { text } => TaskNeedView::Announce { text: text@ },
            TaskNeed::Crawl { query } => TaskNeedView::Crawl { query: query@ },
            TaskNeed::Conversation { channel, room } => TaskNeedView::Conversation {
                channel: channel@,
                room: *room,
            },
            TaskNeed::Speak { text } => TaskNeedView::Speak { text: text@ },
            TaskNeed::Listen => TaskNeedView::Listen,
            TaskNeed::Finish(x) => TaskNeedView::Finish(reported(*x)),
        }
    }
}

/// What came of it.
#[derive(Debug)]
pub enum TaskEvent {
    Used(u64),
    Answer(String),
    Organized { record: OrganizedEmail, fresh: bool },
    Saved(usize),
    Text(String),
    Done,
    Failed(Failure),
}

pub enum TaskEventView {
    Used(u64),
    Answer(Seq<char>),
    Organized { record: OrganizedEmailView, fresh: bool },
    Saved(usize),
    Text(Seq<char>),
    Done,
    Failed(FailureView),
}

impl View for TaskEvent {
    type V = TaskEventView;

    open spec fn view(&self) -> TaskEventView {
        match self {
            TaskEvent::Used(x) => TaskEventView::Used(*x),
            TaskEvent::Answer(x) => TaskEventView::Answer(x@),
            TaskEvent::Organized { record, fresh } => TaskEventView::Organized {
                record: record@,
                fresh: *fresh,
            },
            TaskEvent::Saved(x) => TaskEventView::Saved(*x),
            TaskEvent::Text(x) => TaskEventView::Text(x@),
            TaskEvent::Done => TaskEventView::Done,
            TaskEvent::Failed(x) => TaskEventView::Failed(x@),
        }
    }
}

/// What a model is told about a conversation.
pub const SUMMARY: &'static str =
    "Summarize this conversation: main topics, decisions, unresolved questions and action items. Attribute statements; do not invent consensus.";

/// Where a task stands, and what it needs next.
pub struct TaskTurn {
    pub stage: TaskStageView,
    pub need: TaskNeedView,
}

pub open spec fn task_ends(res: Result<JsonView, FailureView>) -> TaskTurn {
    TaskTurn { stage: TaskStageView::Finished, need: TaskNeedView::Finish(res) }
}

/// How a task begins.
pub open spec fn handling(config: Config, task: TaskView) -> TaskTurn {
    match task {
        TaskView::Status => TaskTurn {
            stage: TaskStageView::Measuring,
            need: TaskNeedView::Measure,
        },
        TaskView::Ask { text, complex } => {
            let tier = complexity(lowered(text), size(text), complex);
            TaskTurn {
                stage: TaskStageView::Answering { model: chosen(config, tier).model@ },
                need: TaskNeedView::Model {
                    complexity: tier,
                    instruction: "Answer the user's request."@,
                    data: text,
                },
            }
        },
        TaskView::Email { path } => TaskTurn {
            stage: TaskStageView::Organizing,
            need: TaskNeedView::Organize { path },
        },
        TaskView::Research { query } => TaskTurn {
            stage: TaskStageView::Crawling,
            need: TaskNeedView::Crawl { query },
        },
        TaskView::Discord { channel } => TaskTurn {
            stage: TaskStageView::Conversing,
            need: TaskNeedView::Conversation { channel, room: prompt_room(config) },
        },
        TaskView::Speak { text } => TaskTurn {
            stage: TaskStageView::Speaking,
            need: TaskNeedView::Speak { text },
        },
        TaskView::Listen => TaskTurn {
            stage: TaskStageView::Listening,
            need: TaskNeedView::Listen,
        },
        TaskView::Quit => task_ends(
            Ok(JsonView::object().with("stopped"@, JsonView::Bool(true))),
        ),
    }
}

/// The room that a prompt leaves for a conversation.
pub open spec fn prompt_room(config: Config) -> usize {
    if config.limits.max_prompt_bytes > 512 {
        (config.limits.max_prompt_bytes - 512) as usize
    } else {
        0
    }
}

/// How much of the disk is used. A limit on the whole installation is the operating system's.
pub open spec fn usage_json(config: Config, allowance: nat, used: u64) -> JsonView {
    JsonView::object().with("managed_budget_bytes"@, JsonView::number(allowance)).with(
        "os_quota_required_for_total_guarantee"@,
        JsonView::Bool(true),
    ).with("total_limit_bytes"@, JsonView::number(config.limits.disk_bytes as nat)).with(
        "used_bytes"@,
        JsonView::number(used as nat),
    )
}

pub open spec fn organized_json(record: OrganizedEmailView, fresh: bool) -> JsonView {
    JsonView::object().with("email"@, record.json()).with("new"@, JsonView::Bool(fresh))
}

/// What is said of a new message: authentication codes, subjects and senders are not read aloud.
pub open spec fn arrival(record: OrganizedEmailView) -> Seq<char> {
    "Sir, a new tier "@ + numeral(record.tier.rank() as nat) + " email has arrived."@
}

/// How a task goes on after `event`.
pub open spec fn task_step(
    config: Config,
    allowance: nat,
    stage: TaskStageView,
    event: TaskEventView,
) -> TaskTurn {
    match (stage, event) {
        (TaskStageView::Measuring, TaskEventView::Used(used)) => task_ends(
            Ok(usage_json(config, allowance, used)),
        ),
        (TaskStageView::Answering { model }, TaskEventView::Answer(answer)) => task_ends(
            Ok(
                JsonView::object().with("answer"@, JsonView::Text(answer)).with(
                    "model"@,
                    JsonView::Text(model),
                ),
            ),
        ),
        (TaskStageView::Organizing, TaskEventView::Organized { record, fresh }) => if fresh
            && config.voice.enabled {
            TaskTurn {
                stage: TaskStageView::Announcing { record },
                need: TaskNeedView::Announce { text: arrival(record) },
            }
        } else {
            task_ends(Ok(organized_json(record, fresh)))
        },
        (TaskStageView::Announcing { record }, _) => task_ends(Ok(organized_json(record, true))),
        (TaskStageView::Crawling, TaskEventView::Saved(saved)) => task_ends(
            Ok(JsonView::object().with("saved_papers"@, JsonView::number(saved as nat))),
        ),
        (TaskStageView::Conversing, TaskEventView::Text(text)) => TaskTurn {
            stage: TaskStageView::Summarizing,
            need: TaskNeedView::Model {
                complexity: Complexity::Simple,
                instruction: SUMMARY@,
                data: text,
            },
        },
        (TaskStageView::Summarizing, TaskEventView::Answer(answer)) => task_ends(
            Ok(JsonView::object().with("summary"@, JsonView::Text(answer))),
        ),
        (TaskStageView::Speaking, TaskEventView::Done) => task_ends(
            Ok(JsonView::object().with("spoken"@, JsonView::Bool(true))),
        ),
        (TaskStageView::Listening, TaskEventView::Text(transcript)) => TaskTurn {
            stage: TaskStageView::Replying { transcript },
            need: TaskNeedView::Model {
                complexity: complexity(lowered(transcript), size(transcript), false),
                instruction: "Answer briefly for spoken playback."@,
                data: transcript,
            },
        },
        (TaskStageView::Replying { transcript }, TaskEventView::Answer(answer)) => TaskTurn {
            stage: TaskStageView::SpeakingReply { transcript, answer },
            need: TaskNeedView::Speak { text: answer },
        },
        (TaskStageView::SpeakingReply { transcript, answer }, TaskEventView::Done) => task_ends(
            Ok(
                JsonView::object().with("answer"@, JsonView::Text(answer)).with(
                    "transcript"@,
                    JsonView::Text(transcript),
                ),
            ),
        ),
        (_, TaskEventView::Failed(failure)) => task_ends(Err(failure)),
        _ => task_ends(Err(FailureView::Refused(ErrorView::Unexpected))),
    }
}

/// The assistant of the command line.
#[derive(Debug)]
pub struct Controller {
    pub config: Config,
    pub store: Store,
    pub router: Router,
}

fn finish(res: Result<Json, Failure>) -> (out: (TaskStage, TaskNeed))
    ensures
        (TaskTurn { stage: out.0@, need: out.1@ }) == task_ends(
            reported(res),
        ),
{
    (TaskStage::Finished, TaskNeed::Finish(res))
}

fn organized_document(record: &OrganizedEmail, fresh: bool) -> (res: Json)
    ensures
        res@ == organized_json(record@, fresh),
{
    Json::object().with("email", record.json()).with("new", Json::Bool(fresh))
}

impl Controller {
    /// How many model calls were made.
    pub open spec fn made(&self) -> nat {
        self.router.made()
    }

    pub fn new(config: Config, store: Store) -> (res: Controller)
        ensures
            res.config == config,
            res.store == store,
            res.made() == 0,
    {
        Controller { config, store, router: Router::new() }
    }

    /// What is said of a new message, where anything is said at all.
    pub fn announce(&self, record: &OrganizedEmail) -> (res: Option<String>)
        ensures
            maybe(res) == if self.config.voice.enabled {
                Some(arrival(record@))
            } else {
                None
            },
    {
        if self.config.voice.enabled {
            let mut text = "Sir, a new tier ".to_owned();
            text.append(decimal(record.tier.number() as u64).as_str());
            text.append(" email has arrived.");
            Some(text)
        } else {
            None
        }
    }

    /// The request to a model, counted before it is made.
    pub fn ask(
        &mut self,
        complexity: Complexity,
        instruction: &str,
        data: &str,
        key: &Result<String, String>,
    ) -> (res: Result<ModelCall, Error>)
        ensures
            (match res {
                Ok(call) => Ok(call@),
                Err(error) => Err(error@),
            }) == asking(
                old(self).config,
                old(self).made(),
                complexity,
                instruction@,
                data@,
                read_as(*key),
            ),
            final(self).made() == old(self).made() + if res is Ok {
                1int
            } else {
                0
            },
            final(self).config == old(self).config,
            final(self).store == old(self).store,
    {
        self.router.ask(&self.config, complexity, instruction, data, key)
    }

    /// The request for a summary of a conversation.
    pub fn summary(&self, text: &str) -> (res: TaskNeed)
        ensures
            res@ == (TaskNeedView::Model {
                complexity: Complexity::Simple,
                instruction: SUMMARY@,
                data: text@,
            }),
    {
        TaskNeed::Model {
            complexity: Complexity::Simple,
            instruction: SUMMARY.to_owned(),
            data: text.to_owned(),
        }
    }

    /// Begins a task.
    pub fn handle(&self, task: Task) -> (res: (TaskStage, TaskNeed))
        ensures
            (TaskTurn { stage: res.0@, need: res.1@ }) == handling(self.config, task@),
    {
        match task {
            Task::Status => (TaskStage::Measuring, TaskNeed::Measure),
            Task::Ask { text, complex } => {
                let tier = complexity_for(text.as_str(), complex);
                let model = self.router.choose_model(&self.config, tier).model.clone();
                (
                    TaskStage::Answering { model },
                    TaskNeed::Model {
                        complexity: tier,
                        instruction: "Answer the user's request.".to_owned(),
                        data: text,
                    },
                )
            },
            Task::Email { path } => (TaskStage::Organizing, TaskNeed::Organize { path }),
            Task::Research { query } => (TaskStage::Crawling, TaskNeed::Crawl { query }),
            Task::Discord { channel } => {
                let room: usize = if self.config.limits.max_prompt_bytes > 512 {
                    self.config.limits.max_prompt_bytes - 512
                } else {
                    0
                };
                (TaskStage::Conversing, TaskNeed::Conversation { channel, room })
            },
            Task::Speak { text } => (TaskStage::Speaking, TaskNeed::Speak { text }),
            Task::Listen => (TaskStage::Listening, TaskNeed::Listen),
            Task::Quit => finish(Ok(Json::object().with("stopped", Json::Bool(true)))),
        }
    }

    /// Goes on with a task after `event`.
    pub fn handle_on(&self, stage: TaskStage, event: TaskEvent) -> (res: (TaskStage, TaskNeed))
        ensures
            (TaskTurn { stage: res.0@, need: res.1@ }) == task_step(
                self.config,
                self.store.allowance(),
                stage@,
                event@,
            ),
    {
        match (stage, event) {
            (TaskStage::Measuring, TaskEvent::Used(used)) => {
                let usage = Json::object().with(
                    "managed_budget_bytes",
                    Json::number(self.store.budget()),
                ).with("os_quota_required_for_total_guarantee", Json::Bool(true)).with(
                    "total_limit_bytes",
                    Json::number(self.config.limits.disk_bytes),
                ).with("used_bytes", Json::number(used));
                finish(Ok(usage))
            },
            (TaskStage::Answering { model }, TaskEvent::Answer(answer)) => finish(
                Ok(
                    Json::object().with("answer", Json::Text(answer)).with(
                        "model",
                        Json::Text(model),
                    ),
                ),
            ),
            (TaskStage::Organizing, TaskEvent::Organized { record, fresh }) => {
                if fresh {
                    if let Some(text) = self.announce(&record) {
                        return (TaskStage::Announcing { record }, TaskNeed::Announce { text });
                    }
                }
                finish(Ok(organized_document(&record, fresh)))
            },
            (TaskStage::Announcing { record }, _) => finish(Ok(organized_document(&record, true))),
            (TaskStage::Crawling, TaskEvent::Saved(saved)) => finish(
                Ok(Json::object().with("saved_papers", Json::number(saved as u64))),
            ),
            (TaskStage::Conversing, TaskEvent::Text(text)) => (
                TaskStage::Summarizing,
                self.summary(text.as_str()),
            ),
            (TaskStage::Summarizing, TaskEvent::Answer(answer)) => finish(
                Ok(Json::object().with("summary", Json::Text(answer))),
            ),
            (TaskStage::Speaking, TaskEvent::Done) => finish(
                Ok(Json::object().with("spoken", Json::Bool(true))),
            ),
            (TaskStage::Listening, TaskEvent::Text(transcript)) => {
                let need = TaskNeed::Model {
                    complexity: complexity_for(transcript.as_str(), false),
                    instruction: "Answer briefly for spoken playback.".to_owned(),
                    data: transcript.clone(),
                };
                (TaskStage::Replying { transcript }, need)
            },
            (TaskStage::Replying { transcript }, TaskEvent::Answer(answer)) => (
                TaskStage::SpeakingReply { transcript, answer: answer.clone() },
                TaskNeed::Speak { text: answer },
            ),
            (TaskStage::SpeakingReply { transcript, answer }, TaskEvent::Done) => finish(
                Ok(
                    Json::object().with("answer", Json::Text(answer)).with(
                        "transcript",
                        Json::Text(transcript),
                    ),
                ),
            ),
            (_, TaskEvent::Failed(failure)) => finish(Err(failure)),
            _ => finish(Err(Failure::Refused(Error::Unexpected))),
        }
    }
}

/// What is said of a new message tells its tier and nothing else of it.
pub proof fn law_arrival_tells_the_tier(one: OrganizedEmailView, other: OrganizedEmailView)
    requires
        one.tier == other.tier,
    ensures
        arrival(one) == arrival(other),
{
}

// ---------------------------------------------------------------------------
// What comes of each task

/// A question goes to the model that its words, or the user, call for, as it was asked; the answer
/// is given back with the name of that model.
pub proof fn law_question_task(
    config: Config,
    allowance: nat,
    text: Seq<char>,
    complex: bool,
    answer: Seq<char>,
)
    ensures
        ({
            let turn = handling(config, TaskView::Ask { text, complex });
            let tier = complexity(lowered(text), size(text), complex);
            let end = task_step(config, allowance, turn.stage, TaskEventView::Answer(answer));
            &&& turn.need == (TaskNeedView::Model {
                complexity: tier,
                instruction: "Answer the user's request."@,
                data: text,
            })
            &&& end.need is Finish
            &&& end.need->Finish_0 is Ok
            &&& end.need->Finish_0->Ok_0.get("answer"@) == Some(JsonView::Text(answer))
            &&& end.need->Finish_0->Ok_0.get("model"@) == Some(
                JsonView::Text(
                    match tier {
                        Complexity::Simple => config.models.cheap.model@,
                        Complexity::Complex => config.models.advanced.model@,
                    },
                ),
            )
        }),
{
    lemma_documents();
    lemma_task_names();
}

/// A message is organized from its file; what came of it is given back whole, and if it is new and
/// there is a voice the user hears its tier first, whether or not that can be said.
pub proof fn law_message_task(
    config: Config,
    allowance: nat,
    path: Seq<char>,
    record: OrganizedEmailView,
    fresh: bool,
    event: TaskEventView,
)
    ensures
        ({
            let turn = handling(config, TaskView::Email { path });
            let told = task_step(
                config,
                allowance,
                turn.stage,
                TaskEventView::Organized { record, fresh },
            );
            let end = task_step(config, allowance, told.stage, event);
            let tier: nat = match record.tier {
                Tier::Critical => 1,
                Tier::Important => 2,
                Tier::News => 3,
                Tier::Other => 4,
            };
            &&& turn.need == (TaskNeedView::Organize { path })
            &&& !(fresh && config.voice.enabled) ==> reports(told.need, record, fresh)
            &&& fresh && config.voice.enabled ==> told.need == (TaskNeedView::Announce {
                text: "Sir, a new tier "@ + numeral(tier) + " email has arrived."@,
            }) && reports(end.need, record, true)
        }),
{
    lemma_documents();
    lemma_task_names();
}

/// A record is given back, and whether it is new.
pub open spec fn reports(need: TaskNeedView, record: OrganizedEmailView, fresh: bool) -> bool {
    &&& need is Finish
    &&& need->Finish_0 is Ok
    &&& need->Finish_0->Ok_0.get("new"@) == Some(JsonView::Bool(fresh))
    &&& {
        let doc = need->Finish_0->Ok_0.get("email"@);
        &&& get_in(doc, "id"@) == Some(JsonView::Text(record.id))
        &&& get_in(doc, "from"@) == Some(JsonView::Text(record.from))
        &&& get_in(doc, "subject"@) == Some(JsonView::Text(record.subject))
        &&& get_in(doc, "reason"@) == Some(JsonView::Text(record.reason))
        &&& get_in(doc, "tier"@) == Some(
            JsonView::Text(
                match record.tier {
                    Tier::Critical => "critical"@,
                    Tier::Important => "important"@,
                    Tier::News => "news"@,
                    Tier::Other => "other"@,
                },
            ),
        )
    }
}

/// A search is made for the query, and the number of papers that were new is given back.
pub proof fn law_search_task(config: Config, allowance: nat, query: Seq<char>, saved: usize)
    ensures
        ({
            let turn = handling(config, TaskView::Research { query });
            let end = task_step(config, allowance, turn.stage, TaskEventView::Saved(saved));
            &&& turn.need == (TaskNeedView::Crawl { query })
            &&& end.need is Finish
            &&& end.need->Finish_0 is Ok
            &&& end.need->Finish_0->Ok_0.get("saved_papers"@) == Some(
                JsonView::number(saved as nat),
            )
        }),
{
    lemma_documents();
}

/// A conversation is fetched as far as it fits beside the instruction, summarized by the cheap
/// model, and the summary is given back.
pub proof fn law_conversation_task(
    config: Config,
    allowance: nat,
    channel: Seq<char>,
    text: Seq<char>,
    answer: Seq<char>,
)
    ensures
        ({
            let turn = handling(config, TaskView::Discord { channel });
            let asked = task_step(config, allowance, turn.stage, TaskEventView::Text(text));
            let end = task_step(config, allowance, asked.stage, TaskEventView::Answer(answer));
            &&& turn.need is Conversation
            &&& turn.need->channel == channel
            &&& config.limits.max_prompt_bytes >= 512 ==> turn.need->room + 512
                == config.limits.max_prompt_bytes
            &&& config.limits.max_prompt_bytes < 512 ==> turn.need->room == 0
            &&& asked.need == (TaskNeedView::Model {
                complexity: Complexity::Simple,
                instruction:
                    "Summarize this conversation: main topics, decisions, unresolved questions and action items. Attribute statements; do not invent consensus."@,
                data: text,
            })
            &&& end.need is Finish
            &&& end.need->Finish_0 is Ok
            &&& end.need->Finish_0->Ok_0.get("summary"@) == Some(JsonView::Text(answer))
        }),
{
    lemma_documents();
}

/// What is to be said is said as it is; what is heard is asked of the model that it calls for, its
/// answer is spoken, and both are given back.
pub proof fn law_voice_tasks(
    config: Config,
    allowance: nat,
    text: Seq<char>,
    transcript: Seq<char>,
    answer: Seq<char>,
)
    ensures
        ({
            let turn = handling(config, TaskView::Speak { text });
            let end = task_step(config, allowance, turn.stage, TaskEventView::Done);
            &&& turn.need == (TaskNeedView::Speak { text })
            &&& end.need is Finish
            &&& end.need->Finish_0 is Ok
            &&& end.need->Finish_0->Ok_0.get("spoken"@) == Some(JsonView::Bool(true))
        }),
        ({
            let turn = handling(config, TaskView::Listen);
            let asked = task_step(config, allowance, turn.stage, TaskEventView::Text(transcript));
            let said = task_step(config, allowance, asked.stage, TaskEventView::Answer(answer));
            let end = task_step(config, allowance, said.stage, TaskEventView::Done);
            &&& turn.need == TaskNeedView::Listen
            &&& asked.need == (TaskNeedView::Model {
                complexity: complexity(lowered(transcript), size(transcript), false),
                instruction: "Answer briefly for spoken playback."@,
                data: transcript,
            })
            &&& said.need == (TaskNeedView::Speak { text: answer })
            &&& end.need is Finish
            &&& end.need->Finish_0 is Ok
            &&& end.need->Finish_0->Ok_0.get("answer"@) == Some(JsonView::Text(answer))
            &&& end.need->Finish_0->Ok_0.get("transcript"@) == Some(JsonView::Text(transcript))
        }),
{
    lemma_documents();
    lemma_task_names();
}

/// The status tells what the store takes and may take, and to quit ends at once.
pub proof fn law_status_task(config: Config, allowance: nat, used: u64)
    ensures
        ({
            let turn = handling(config, TaskView::Status);
            let end = task_step(config, allowance, turn.stage, TaskEventView::Used(used));
            &&& turn.need == TaskNeedView::Measure
            &&& end.need is Finish
            &&& end.need->Finish_0 is Ok
            &&& end.need->Finish_0->Ok_0.get("used_bytes"@) == Some(JsonView::number(used as nat))
            &&& end.need->Finish_0->Ok_0.get("managed_budget_bytes"@) == Some(
                JsonView::number(allowance),
            )
            &&& end.need->Finish_0->Ok_0.get("total_limit_bytes"@) == Some(
                JsonView::number(config.limits.disk_bytes as nat),
            )
            &&& end.need->Finish_0->Ok_0.get("os_quota_required_for_total_guarantee"@) == Some(
                JsonView::Bool(true),
            )
        }),
        ({
            let turn = handling(config, TaskView::Quit);
            &&& turn.need is Finish
            &&& turn.need->Finish_0 is Ok
            &&& turn.need->Finish_0->Ok_0.get("stopped"@) == Some(JsonView::Bool(true))
        }),
{
    lemma_documents();
    lemma_task_names();
}

/// What fails fails the task with it, except that an announcement that cannot be said does not
/// matter.
pub proof fn law_failed_task(
    config: Config,
    allowance: nat,
    stage: TaskStageView,
    failure: FailureView,
)
    requires
        stage !is Announcing,
    ensures
        task_step(config, allowance, stage, TaskEventView::Failed(failure)).need
            == TaskNeedView::Finish(Err(failure)),
{
}

proof fn lemma_task_names()
    ensures
        "answer"@ != "model"@,
        "email"@ != "new"@,
        "from"@ != "id"@,
        "from"@ != "reason"@,
        "from"@ != "subject"@,
        "from"@ != "tier"@,
        "id"@ != "reason"@,
        "id"@ != "subject"@,
        "id"@ != "tier"@,
        "reason"@ != "subject"@,
        "reason"@ != "tier"@,
        "subject"@ != "tier"@,
        "answer"@ != "transcript"@,
        "managed_budget_bytes"@ != "os_quota_required_for_total_guarantee"@,
        "managed_budget_bytes"@ != "total_limit_bytes"@,
        "managed_budget_bytes"@ != "used_bytes"@,
        "os_quota_required_for_total_guarantee"@ != "total_limit_bytes"@,
        "os_quota_required_for_total_guarantee"@ != "used_bytes"@,
        "total_limit_bytes"@ != "used_bytes"@,
{
    reveal_strlit("answer");
    reveal_strlit("model");
    reveal_strlit("email");
    reveal_strlit("new");
    reveal_strlit("from");
    reveal_strlit("id");
    reveal_strlit("reason");
    reveal_strlit("subject");
    reveal_strlit("tier");
    reveal_strlit("transcript");
    reveal_strlit("managed_budget_bytes");
    reveal_strlit("os_quota_required_for_total_guarantee");
    reveal_strlit("total_limit_bytes");
    reveal_strlit("used_bytes");
    assert("answer"@.len() == 6);
    assert("model"@.len() == 5);
    assert("email"@.len() == 5);
    assert("new"@.len() == 3);
    assert("from"@.len() == 4);
    assert("id"@.len() == 2);
    assert("reason"@.len() == 6);
    assert("subject"@.len() == 7);
    assert("tier"@.len() == 4);
    assert("transcript"@.len() == 10);
    assert("managed_budget_bytes"@.len() == 20);
    assert("os_quota_required_for_total_guarantee"@.len() == 37);
    assert("total_limit_bytes"@.len() == 17);
    assert("used_bytes"@.len() == 10);
    assert("from"@[0] != "tier"@[0]);
}

} // verus!
