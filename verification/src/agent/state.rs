//! What the agent remembers.
use crate::agent::discord::{Message, MessageView};
use crate::error::{seen, Error, ErrorView};
use crate::json::{copied, json_view, lemma_documents, or_null, text_or_null, Json, JsonView};
use crate::table::Table;
use crate::text::{copy_text, maybe, same};
use vstd::prelude::*;

verus! {

/// The object that holds the state.
pub const STATE_FILE: &'static str = "agent-state.json";

/// The largest state that is kept: 32 MiB.
pub const STATE_LIMIT: u64 = 33_554_432;

/// A state or an answer of so many bytes is not too long.
pub open spec fn fits(len: u64) -> bool {
    len <= STATE_LIMIT
}

/// What fits is what has 32 MiB at most.
pub proof fn law_fits(len: u64)
    ensures
        fits(len) <==> len <= 32 * 1024 * 1024,
{
}

// ---------------------------------------------------------------------------
// Work

/// What is to be done.
#[derive(Debug)]
pub enum Work {
    Email { path: String, hash: String },
    Research { query: String },
    Feed { url: String },
    Paper { object: String },
    Discord { channel: String, message: Box<Message> },
    DiscordSummary { channel: String },
    Ask { text: String },
    Undo { job_id: String },
}

pub enum WorkView {
    Email { path: Seq<char>, hash: Seq<char> },
    Research { query: Seq<char> },
    Feed { url: Seq<char> },
    Paper { object: Seq<char> },
    Discord { channel: Seq<char>, message: MessageView },
    DiscordSummary { channel: Seq<char> },
    Ask { text: Seq<char> },
    Undo { job_id: Seq<char> },
}

impl View for Work {
    type V = WorkView;

    open spec fn view(&self) -> WorkView {
        match self {
            Work::Email { path, hash } => WorkView::Email { path: path@, hash: hash@ },
            Work::Research { query } => WorkView::Research { query: query@ },
            Work::Feed { url } => WorkView::Feed { url: url@ },
            Work::Paper { object } => WorkView::Paper { object: object@ },
            Work::Discord { channel, message } => WorkView::Discord {
                channel: channel@,
                message: (**message)@,
            },
            Work::DiscordSummary { channel } => WorkView::DiscordSummary { channel: channel@ },
            Work::Ask { text } => WorkView::Ask { text: text@ },
            Work::Undo { job_id } => WorkView::Undo { job_id: job_id@ },
        }
    }
}

impl Clone for Work {
    fn clone(&self) -> (res: Work)
        ensures
            res@ == self@,
    {
        match self {
            Work::Email { path, hash } => Work::Email { path: path.clone(), hash: hash.clone() },
            Work::Research { query } => Work::Research { query: query.clone() },
            Work::Feed { url } => Work::Feed { url: url.clone() },
            Work::Paper { object } => Work::Paper { object: object.clone() },
            Work::Discord { channel, message } => Work::Discord {
                channel: channel.clone(),
                message: Box::new((**message).clone()),
            },
            Work::DiscordSummary { channel } => Work::DiscordSummary { channel: channel.clone() },
            Work::Ask { text } => Work::Ask { text: text.clone() },
            Work::Undo { job_id } => Work::Undo { job_id: job_id.clone() },
        }
    }
}

impl WorkView {
    pub open spec fn json(self) -> JsonView {
        match self {
            WorkView::Email { path, hash } => JsonView::object().with(
                "hash"@,
                JsonView::Text(hash),
            ).with("kind"@, JsonView::Text("email"@)).with("path"@, JsonView::Text(path)),
            WorkView::Research { query } => JsonView::object().with(
                "kind"@,
                JsonView::Text("research"@),
            ).with("query"@, JsonView::Text(query)),
            WorkView::Feed { url } => JsonView::object().with(
                "kind"@,
                JsonView::Text("feed"@),
            ).with("url"@, JsonView::Text(url)),
            WorkView::Paper { object } => JsonView::object().with(
                "kind"@,
                JsonView::Text("paper"@),
            ).with("object"@, JsonView::Text(object)),
            WorkView::Discord { channel, message } => JsonView::object().with(
                "channel"@,
                JsonView::Text(channel),
            ).with("kind"@, JsonView::Text("discord"@)).with("message"@, message.json()),
            WorkView::DiscordSummary { channel } => JsonView::object().with(
                "channel"@,
                JsonView::Text(channel),
            ).with("kind"@, JsonView::Text("discord_summary"@)),
            WorkView::Ask { text } => JsonView::object().with(
                "kind"@,
                JsonView::Text("ask"@),
            ).with("text"@, JsonView::Text(text)),
            WorkView::Undo { job_id } => JsonView::object().with(
                "job_id"@,
                JsonView::Text(job_id),
            ).with("kind"@, JsonView::Text("undo"@)),
        }
    }
}

impl Work {
    pub fn json(&self) -> (res: Json)
        ensures
            res@ == self@.json(),
    {
        match self {
            Work::Email { path, hash } => Json::object().with(
                "hash",
                Json::string(hash.as_str()),
            ).with("kind", Json::string("email")).with("path", Json::string(path.as_str())),
            Work::Research { query } => Json::object().with("kind", Json::string("research")).with(
                "query",
                Json::string(query.as_str()),
            ),
            Work::Feed { url } => Json::object().with("kind", Json::string("feed")).with(
                "url",
                Json::string(url.as_str()),
            ),
            Work::Paper { object } => Json::object().with("kind", Json::string("paper")).with(
                "object",
                Json::string(object.as_str()),
            ),
            Work::Discord { channel, message } => Json::object().with(
                "channel",
                Json::string(channel.as_str()),
            ).with("kind", Json::string("discord")).with("message", (**message).json()),
            Work::DiscordSummary { channel } => Json::object().with(
                "channel",
                Json::string(channel.as_str()),
            ).with("kind", Json::string("discord_summary")),
            Work::Ask { text } => Json::object().with("kind", Json::string("ask")).with(
                "text",
                Json::string(text.as_str()),
            ),
            Work::Undo { job_id } => Json::object().with(
                "job_id",
                Json::string(job_id.as_str()),
            ).with("kind", Json::string("undo")),
        }
    }
}

/// Where a job stands.
#[derive(Debug, Clone, Copy, PartialEq, Eq, Structural)]
pub enum Status {
    Pending,
    Running,
    Review,
    Done,
}

impl Status {
    pub open spec fn word(self) -> Seq<char> {
        match self {
            Status::Pending => "pending"@,
            Status::Running => "running"@,
            Status::Review => "review"@,
            Status::Done => "done"@,
        }
    }

    /// The status's name in documents.
    pub fn name(self) -> (res: String)
        ensures
            res@ == self.word(),
    {
        match self {
            Status::Pending => "pending".to_owned(),
            Status::Running => "running".to_owned(),
            Status::Review => "review".to_owned(),
            Status::Done => "done".to_owned(),
        }
    }
}

/// A piece of work and what has come of it.
#[derive(Debug)]
pub struct Job {
    pub id: String,
    pub work: Work,
    pub status: Status,
    pub attempts: u32,
    pub calls: usize,
    pub next_attempt: u64,
    pub created: u64,
    pub updated: u64,
    pub proposal: Option<Json>,
    pub policy: Option<Json>,
    /// Written before any external side effect. Recovery reconciles this record.
    pub action: Option<Json>,
    pub result: Option<Json>,
    pub error: Option<String>,
}

pub struct JobView {
    pub id: Seq<char>,
    pub work: WorkView,
    pub status: Status,
    pub attempts: u32,
    pub calls: usize,
    pub next_attempt: u64,
    pub created: u64,
    pub updated: u64,
    pub proposal: Option<JsonView>,
    pub policy: Option<JsonView>,
    pub action: Option<JsonView>,
    pub result: Option<JsonView>,
    pub error: Option<Seq<char>>,
}

impl View for Job {
    type V = JobView;

    open spec fn view(&self) -> JobView {
        JobView {
            id: self.id@,
            work: self.work@,
            status: self.status,
            attempts: self.attempts,
            calls: self.calls,
            next_attempt: self.next_attempt,
            created: self.created,
            updated: self.updated,
            proposal: json_view(self.proposal),
            policy: json_view(self.policy),
            action: json_view(self.action),
            result: json_view(self.result),
            error: maybe(self.error),
        }
    }
}

impl Clone for Job {
    fn clone(&self) -> (res: Job)
        ensures
            res@ == self@,
    {
        Job {
            id: self.id.clone(),
            work: self.work.clone(),
            status: self.status,
            attempts: self.attempts,
            calls: self.calls,
            next_attempt: self.next_attempt,
            created: self.created,
            updated: self.updated,
            proposal: copied(&self.proposal),
            policy: copied(&self.policy),
            action: copied(&self.action),
            result: copied(&self.result),
            error: copy_text(&self.error),
        }
    }
}

impl JobView {
    /// A job that nothing has been done for.
    pub open spec fn fresh(id: Seq<char>, work: WorkView, time: u64) -> JobView {
        JobView {
            id,
            work,
            status: Status::Pending,
            attempts: 0,
            calls: 0,
            next_attempt: time,
            created: time,
            updated: time,
            proposal: None,
            policy: None,
            action: None,
            result: None,
            error: None,
        }
    }

    pub open spec fn json(self) -> JsonView {
        JsonView::object().with("action"@, or_null(self.action)).with(
            "attempts"@,
            JsonView::number(self.attempts as nat),
        ).with("calls"@, JsonView::number(self.calls as nat)).with(
            "created"@,
            JsonView::number(self.created as nat),
        ).with("error"@, text_or_null(self.error)).with("id"@, JsonView::Text(self.id)).with(
            "next_attempt"@,
            JsonView::number(self.next_attempt as nat),
        ).with("policy"@, or_null(self.policy)).with("proposal"@, or_null(self.proposal)).with(
            "result"@,
            or_null(self.result),
        ).with("status"@, JsonView::Text(self.status.word())).with(
            "updated"@,
            JsonView::number(self.updated as nat),
        ).with("work"@, self.work.json())
    }
}

impl Job {
    /// A job that nothing has been done for.
    pub fn new(id: String, work: Work, time: u64) -> (res: Job)
        ensures
            res@ == JobView::fresh(id@, work@, time),
    {
        Job {
            id,
            work,
            status: Status::Pending,
            attempts: 0,
            calls: 0,
            next_attempt: time,
            created: time,
            updated: time,
            proposal: None,
            policy: None,
            action: None,
            result: None,
            error: None,
        }
    }

    pub fn json(&self) -> (res: Json)
        ensures
            res@ == self@.json(),
    {
        Json::object().with("action", Json::or_null(&self.action)).with(
            "attempts",
            Json::number(self.attempts as u64),
        ).with("calls", Json::number(self.calls as u64)).with(
            "created",
            Json::number(self.created),
        ).with("error", Json::optional(&self.error)).with(
            "id",
            Json::string(self.id.as_str()),
        ).with("next_attempt", Json::number(self.next_attempt)).with(
            "policy",
            Json::or_null(&self.policy),
        ).with("proposal", Json::or_null(&self.proposal)).with(
            "result",
            Json::or_null(&self.result),
        ).with("status", Json::Text(self.status.name())).with(
            "updated",
            Json::number(self.updated),
        ).with("work", self.work.json())
    }
}

// ---------------------------------------------------------------------------
// Lists of jobs

pub open spec fn job_views(jobs: Seq<Job>) -> Seq<JobView> {
    Seq::new(jobs.len(), |i: int| jobs[i]@)
}

/// The place of the first job of that identity, or the number of jobs where there is none.
pub open spec fn place(jobs: Seq<JobView>, id: Seq<char>) -> nat
    decreases jobs.len(),
{
    if jobs.len() == 0 || jobs[0].id == id {
        0
    } else {
        1 + place(jobs.drop_first(), id)
    }
}

/// There is a job of that identity.
pub open spec fn known(jobs: Seq<JobView>, id: Seq<char>) -> bool {
    place(jobs, id) < jobs.len()
}

/// What `place` finds.
pub proof fn lemma_place(jobs: Seq<JobView>, id: Seq<char>)
    ensures
        place(jobs, id) <= jobs.len(),
        known(jobs, id) ==> jobs[place(jobs, id) as int].id == id,
        forall|i: int| 0 <= i < place(jobs, id) ==> (#[trigger] jobs[i]).id != id,
    decreases jobs.len(),
{
    if jobs.len() > 0 && jobs[0].id != id {
        let rest = jobs.drop_first();
        lemma_place(rest, id);
        assert forall|i: int| 0 <= i < place(jobs, id) implies (#[trigger] jobs[i]).id != id by {
            if i > 0 {
                assert(rest[i - 1] == jobs[i]);
            }
        }
        if known(jobs, id) {
            assert(rest[place(rest, id) as int] == jobs[place(jobs, id) as int]);
        }
    }
}

/// The jobs with `job` in the place of the first of its identity.
pub open spec fn replaced(jobs: Seq<JobView>, job: JobView) -> Seq<JobView> {
    if known(jobs, job.id) {
        jobs.update(place(jobs, job.id) as int, job)
    } else {
        jobs
    }
}

/// The jobs of other identities.
pub open spec fn others(jobs: Seq<JobView>, id: Seq<char>) -> Seq<JobView>
    decreases jobs.len(),
{
    if jobs.len() == 0 {
        jobs
    } else if jobs.last().id == id {
        others(jobs.drop_last(), id)
    } else {
        others(jobs.drop_last(), id).push(jobs.last())
    }
}

/// The jobs that are done.
pub open spec fn done(jobs: Seq<JobView>) -> Seq<JobView>
    decreases jobs.len(),
{
    if jobs.len() == 0 {
        jobs
    } else if jobs.last().status == Status::Done {
        done(jobs.drop_last()).push(jobs.last())
    } else {
        done(jobs.drop_last())
    }
}

/// The place of the first job of that identity.
pub fn find_job(jobs: &Vec<Job>, id: &str) -> (res: Option<usize>)
    ensures
        match res {
            Some(i) => i == place(job_views(jobs@), id@) && i < jobs.len(),
            None => !known(job_views(jobs@), id@),
        },
{
    let ghost all = job_views(jobs@);
    let mut i: usize = 0;
    assert(all.skip(0) =~= all);
    while i < jobs.len()
        invariant
            i <= jobs.len(),
            all == job_views(jobs@),
            place(all, id@) == i + place(all.skip(i as int), id@),
        decreases jobs.len() - i,
    {
        assert(all.skip(i as int).drop_first() =~= all.skip(i + 1));
        assert(all.skip(i as int)[0] == jobs@[i as int]@);
        if same(jobs[i].id.as_str(), id) {
            return Some(i);
        }
        i = i + 1;
    }
    None
}

/// Puts `job` in the place of the first of its identity.
pub fn replace_job(jobs: &mut Vec<Job>, job: Job)
    ensures
        job_views(final(jobs)@) == replaced(job_views(old(jobs)@), job@),
{
    let ghost before = jobs@;
    match find_job(jobs, job.id.as_str()) {
        Some(i) => {
            let ghost view = job@;
            jobs.set(i, job);
            assert(job_views(jobs@) =~= job_views(before).update(i as int, view));
        },
        None => {},
    }
}

/// Adds `job` behind the others.
pub fn push_job(jobs: &mut Vec<Job>, job: Job)
    ensures
        job_views(final(jobs)@) == job_views(old(jobs)@).push(job@),
{
    let ghost before = jobs@;
    let ghost view = job@;
    jobs.push(job);
    assert(job_views(jobs@) =~= job_views(before).push(view));
}

/// Takes out the jobs of that identity.
pub fn drop_jobs(jobs: &mut Vec<Job>, id: &str)
    ensures
        job_views(final(jobs)@) == others(job_views(old(jobs)@), id@),
{
    let ghost all = job_views(jobs@);
    let ghost mut k: int = 0;
    let mut i: usize = 0;
    assert(others(all.take(0), id@) + all.skip(0) =~= all);
    while i < jobs.len()
        invariant
            0 <= k <= all.len(),
            i == others(all.take(k), id@).len(),
            job_views(jobs@) == others(all.take(k), id@) + all.skip(k),
        decreases all.len() - k,
    {
        let ghost before = jobs@;
        let ghost kept = others(all.take(k), id@);
        proof {
            assert(job_views(before).len() == kept.len() + (all.len() - k));
            assert(k < all.len());
            assert(job_views(before)[i as int] == all.skip(k)[0]);
            assert(all.take(k + 1).drop_last() =~= all.take(k));
        }
        if same(jobs[i].id.as_str(), id) {
            let _ = jobs.remove(i);
            proof {
                assert(job_views(jobs@) =~= job_views(before).remove(i as int));
                assert(job_views(jobs@) =~= kept + all.skip(k + 1));
            }
        } else {
            proof {
                assert(kept.push(all[k]) + all.skip(k + 1) =~= kept + all.skip(k));
            }
            i = i + 1;
        }
        proof {
            k = k + 1;
        }
    }
    proof {
        assert(job_views(jobs@).len() == others(all.take(k), id@).len() + (all.len() - k));
        assert(k == all.len());
        assert(all.take(k) =~= all);
        assert(others(all, id@) + all.skip(k) =~= others(all, id@));
    }
}

/// Copies of the jobs that are done.
pub fn done_jobs(jobs: &Vec<Job>) -> (res: Vec<Job>)
    ensures
        job_views(res@) == done(job_views(jobs@)),
{
    let ghost all = job_views(jobs@);
    let mut out: Vec<Job> = Vec::new();
    let mut i: usize = 0;
    assert(job_views(out@) =~= done(all.take(0)));
    while i < jobs.len()
        invariant
            i <= jobs.len(),
            all == job_views(jobs@),
            job_views(out@) == done(all.take(i as int)),
        decreases jobs.len() - i,
    {
        assert(all.take(i + 1).drop_last() =~= all.take(i as int));
        assert(all.take(i + 1).last() == jobs@[i as int]@);
        if jobs[i].status == Status::Done {
            let job = jobs[i].clone();
            push_job(&mut out, job);
        }
        i = i + 1;
    }
    assert(all.take(i as int) =~= all);
    out
}

pub open spec fn jobs_json(jobs: Seq<JobView>) -> JsonView
    decreases jobs.len(),
{
    if jobs.len() == 0 {
        JsonView::empty()
    } else {
        jobs_json(jobs.drop_last()).and(jobs.last().json())
    }
}

/// The jobs as one document.
pub fn jobs_document(jobs: &Vec<Job>) -> (res: Json)
    ensures
        res@ == jobs_json(job_views(jobs@)),
{
    let ghost all = job_views(jobs@);
    let mut out = Json::empty();
    let mut i: usize = 0;
    assert(all.take(0) =~= Seq::empty());
    while i < jobs.len()
        invariant
            i <= jobs.len(),
            all == job_views(jobs@),
            out@ == jobs_json(all.take(i as int)),
        decreases jobs.len() - i,
    {
        assert(all.take(i + 1).drop_last() =~= all.take(i as int));
        out = out.and(jobs[i].json());
        i = i + 1;
    }
    assert(all.take(i as int) =~= all);
    out
}

// ---------------------------------------------------------------------------
// Announcements

/// Something to say aloud.
#[derive(Debug)]
pub struct Announcement {
    pub id: String,
    pub text: String,
    pub detail: String,
    pub urgent: bool,
}

pub struct AnnouncementView {
    pub id: Seq<char>,
    pub text: Seq<char>,
    pub detail: Seq<char>,
    pub urgent: bool,
}

impl View for Announcement {
    type V = AnnouncementView;

    open spec fn view(&self) -> AnnouncementView {
        AnnouncementView {
            id: self.id@,
            text: self.text@,
            detail: self.detail@,
            urgent: self.urgent,
        }
    }
}

impl Clone for Announcement {
    fn clone(&self) -> (res: Announcement)
        ensures
            res@ == self@,
    {
        Announcement {
            id: self.id.clone(),
            text: self.text.clone(),
            detail: self.detail.clone(),
            urgent: self.urgent,
        }
    }
}

pub open spec fn announcement_views(list: Seq<Announcement>) -> Seq<AnnouncementView> {
    Seq::new(list.len(), |i: int| list[i]@)
}

pub open spec fn announcement_view(item: Option<Announcement>) -> Option<AnnouncementView> {
    match item {
        Some(item) => Some(item@),
        None => None,
    }
}

impl AnnouncementView {
    pub open spec fn json(self) -> JsonView {
        JsonView::object().with("detail"@, JsonView::Text(self.detail)).with(
            "id"@,
            JsonView::Text(self.id),
        ).with("text"@, JsonView::Text(self.text)).with("urgent"@, JsonView::Bool(self.urgent))
    }
}

impl Announcement {
    pub fn json(&self) -> (res: Json)
        ensures
            res@ == self@.json(),
    {
        Json::object().with("detail", Json::string(self.detail.as_str())).with(
            "id",
            Json::string(self.id.as_str()),
        ).with("text", Json::string(self.text.as_str())).with("urgent", Json::Bool(self.urgent))
    }
}

pub open spec fn announcements_json(list: Seq<AnnouncementView>) -> JsonView
    decreases list.len(),
{
    if list.len() == 0 {
        JsonView::empty()
    } else {
        announcements_json(list.drop_last()).and(list.last().json())
    }
}

/// The announcements as one document.
pub fn announcements_document(list: &Vec<Announcement>) -> (res: Json)
    ensures
        res@ == announcements_json(announcement_views(list@)),
{
    let ghost all = announcement_views(list@);
    let mut out = Json::empty();
    let mut i: usize = 0;
    assert(all.take(0) =~= Seq::empty());
    while i < list.len()
        invariant
            i <= list.len(),
            all == announcement_views(list@),
            out@ == announcements_json(all.take(i as int)),
        decreases list.len() - i,
    {
        assert(all.take(i + 1).drop_last() =~= all.take(i as int));
        out = out.and(list[i].json());
        i = i + 1;
    }
    assert(all.take(i as int) =~= all);
    out
}

/// The list with one more item, the first dropped where there were a hundred.
pub open spec fn announced(list: Seq<AnnouncementView>, item: AnnouncementView) -> Seq<
    AnnouncementView,
> {
    if list.len() >= 100 {
        list.drop_first().push(item)
    } else {
        list.push(item)
    }
}

/// Adds an item, and drops the first where there were a hundred.
pub fn push_announcement(list: &mut Vec<Announcement>, item: Announcement)
    ensures
        announcement_views(final(list)@) == announced(announcement_views(old(list)@), item@),
{
    let ghost first = list@;
    if list.len() >= 100 {
        let _ = list.remove(0);
        assert(announcement_views(list@) =~= announcement_views(first).drop_first());
    }
    let ghost before = list@;
    let ghost view = item@;
    list.push(item);
    assert(announcement_views(list@) =~= announcement_views(before).push(view));
}

/// There is an announcement of that identity.
pub open spec fn announces(list: Seq<AnnouncementView>, id: Seq<char>) -> bool {
    exists|i: int| 0 <= i < list.len() && (#[trigger] list[i]).id == id
}

pub fn is_announced(list: &Vec<Announcement>, id: &str) -> (res: bool)
    ensures
        res == announces(announcement_views(list@), id@),
{
    let ghost all = announcement_views(list@);
    let mut i: usize = 0;
    while i < list.len()
        invariant
            i <= list.len(),
            all == announcement_views(list@),
            forall|j: int| 0 <= j < i ==> (#[trigger] all[j]).id != id@,
        decreases list.len() - i,
    {
        assert(all[i as int] == list@[i as int]@);
        if same(list[i].id.as_str(), id) {
            return true;
        }
        i = i + 1;
    }
    false
}

// ---------------------------------------------------------------------------
// The state

/// What the agent remembers between runs.
#[derive(Debug)]
pub struct State {
    pub version: u32,
    pub paused: bool,
    pub away: bool,
    pub next_poll: u64,
    pub next_rundown: u64,
    pub next_research: u64,
    pub budget_day: u64,
    pub model_calls: usize,
    pub token_reservations: usize,
    /// For a channel that is being caught up with: the newest message seen, and the oldest.
    pub discord_backfill: Table<(String, String)>,
    pub discord_retry_at: u64,
    pub discord_cursors: Table<String>,
    pub jobs: Vec<Job>,
    pub announcements: Vec<Announcement>,
    pub recent: Vec<Job>,
    pub last_spoken: Option<Announcement>,
    pub connector_errors: Table<String>,
}

pub struct StateView {
    pub version: u32,
    pub paused: bool,
    pub away: bool,
    pub next_poll: u64,
    pub next_rundown: u64,
    pub next_research: u64,
    pub budget_day: u64,
    pub model_calls: usize,
    pub token_reservations: usize,
    pub discord_backfill: Seq<(Seq<char>, (Seq<char>, Seq<char>))>,
    pub discord_retry_at: u64,
    pub discord_cursors: Seq<(Seq<char>, Seq<char>)>,
    pub jobs: Seq<JobView>,
    pub announcements: Seq<AnnouncementView>,
    pub recent: Seq<JobView>,
    pub last_spoken: Option<AnnouncementView>,
    pub connector_errors: Seq<(Seq<char>, Seq<char>)>,
}

impl View for State {
    type V = StateView;

    open spec fn view(&self) -> StateView {
        StateView {
            version: self.version,
            paused: self.paused,
            away: self.away,
            next_poll: self.next_poll,
            next_rundown: self.next_rundown,
            next_research: self.next_research,
            budget_day: self.budget_day,
            model_calls: self.model_calls,
            token_reservations: self.token_reservations,
            discord_backfill: self.discord_backfill@,
            discord_retry_at: self.discord_retry_at,
            discord_cursors: self.discord_cursors@,
            jobs: job_views(self.jobs@),
            announcements: announcement_views(self.announcements@),
            recent: job_views(self.recent@),
            last_spoken: announcement_view(self.last_spoken),
            connector_errors: self.connector_errors@,
        }
    }
}

/// The job, waiting again where a shutdown caught it running.
pub open spec fn resumed(job: JobView) -> JobView {
    if job.status == Status::Running {
        JobView { status: Status::Pending, ..job }
    } else {
        job
    }
}

pub open spec fn all_resumed(jobs: Seq<JobView>) -> Seq<JobView> {
    Seq::new(jobs.len(), |i: int| resumed(jobs[i]))
}

impl StateView {
    /// The state of a first start.
    pub open spec fn first(away: bool) -> StateView {
        StateView {
            version: 1,
            paused: false,
            away,
            next_poll: 0,
            next_rundown: 0,
            next_research: 0,
            budget_day: 0,
            model_calls: 0,
            token_reservations: 0,
            discord_backfill: Seq::empty(),
            discord_retry_at: 0,
            discord_cursors: Seq::empty(),
            jobs: Seq::empty(),
            announcements: Seq::empty(),
            recent: Seq::empty(),
            last_spoken: None,
            connector_errors: Seq::empty(),
        }
    }

    /// The allowance of a day starts when the day does; a clock that runs backwards does not
    /// bring it back.
    pub open spec fn on_day(self, time: u64) -> StateView {
        if time / 86400 > self.budget_day {
            StateView { budget_day: time / 86400, model_calls: 0, token_reservations: 0, ..self }
        } else {
            self
        }
    }
}

/// What a start makes of the state that was kept.
pub open spec fn loaded(kept: Option<StateView>, away: bool) -> Result<StateView, ErrorView> {
    match kept {
        None => Ok(StateView::first(away)),
        Some(state) => if state.version != 1 {
            Err(ErrorView::StateVersion)
        } else {
            Ok(StateView { jobs: all_resumed(state.jobs), ..state })
        },
    }
}

impl State {
    /// The state at a start: the one that was kept, its interrupted jobs waiting again, or that
    /// of a first start.
    pub fn load(kept: Option<State>, away: bool) -> (res: Result<State, Error>)
        ensures
            (match res {
                Ok(state) => Ok(state@),
                Err(error) => Err(error@),
            }) == loaded(
                match kept {
                    Some(state) => Some(state@),
                    None => None,
                },
                away,
            ),
    {
        match kept {
            None => {
                let state = State {
                    version: 1,
                    paused: false,
                    away,
                    next_poll: 0,
                    next_rundown: 0,
                    next_research: 0,
                    budget_day: 0,
                    model_calls: 0,
                    token_reservations: 0,
                    discord_backfill: Table::new(),
                    discord_retry_at: 0,
                    discord_cursors: Table::new(),
                    jobs: Vec::new(),
                    announcements: Vec::new(),
                    recent: Vec::new(),
                    last_spoken: None,
                    connector_errors: Table::new(),
                };
                assert(job_views(state.jobs@) =~= Seq::empty());
                assert(job_views(state.recent@) =~= Seq::empty());
                assert(announcement_views(state.announcements@) =~= Seq::empty());
                Ok(state)
            },
            Some(state) => {
                let mut state = state;
                if state.version != 1 {
                    return Err(Error::StateVersion);
                }
                let ghost all = job_views(state.jobs@);
                let mut jobs = state.jobs;
                let mut i: usize = 0;
                while i < jobs.len()
                    invariant
                        i <= jobs.len(),
                        all.len() == jobs.len(),
                        forall|j: int| 0 <= j < i ==> (#[trigger] jobs@[j])@ == resumed(all[j]),
                        forall|j: int| i <= j < jobs.len() ==> (#[trigger] jobs@[j])@ == all[j],
                    decreases jobs.len() - i,
                {
                    if jobs[i].status == Status::Running {
                        let mut job = jobs[i].clone();
                        job.status = Status::Pending;
                        jobs.set(i, job);
                    }
                    i = i + 1;
                }
                assert(job_views(jobs@) =~= all_resumed(all));
                state.jobs = jobs;
                Ok(state)
            },
        }
    }

    /// Whether a state of `len` bytes may be kept.
    pub fn save(len: u64) -> (res: Result<(), Error>)
        ensures
            seen(res) == if fits(len) {
                Ok(())
            } else {
                Err(ErrorView::CheckpointSize)
            },
    {
        if len <= STATE_LIMIT {
            Ok(())
        } else {
            Err(Error::CheckpointSize)
        }
    }

    /// Starts the allowance of the day, where the day is a later one.
    pub fn reset_budget(&mut self, time: u64)
        ensures
            final(self)@ == old(self)@.on_day(time),
    {
        if time / 86400 > self.budget_day {
            self.budget_day = time / 86400;
            self.model_calls = 0;
            self.token_reservations = 0;
        }
    }
}

/// A clock that runs backwards brings no allowance back: what was used of a day stays used until
/// a later day.
pub proof fn law_no_replenishing(state: StateView, time: u64, earlier: u64)
    requires
        earlier <= time,
    ensures
        state.on_day(time).on_day(earlier) == state.on_day(time),
        state.on_day(time).budget_day >= state.budget_day,
        time / 86400 <= state.budget_day ==> state.on_day(time) == state,
{
}

/// The document of work tells what is to be done, each kind under its own name and with all that it
/// needs.
pub proof fn law_work_document(work: WorkView)
    ensures
        ({
            let doc = work.json();
            match work {
                WorkView::Email { path, hash } => {
                    &&& doc.get("kind"@) == Some(JsonView::Text("email"@))
                    &&& doc.get("path"@) == Some(JsonView::Text(path))
                    &&& doc.get("hash"@) == Some(JsonView::Text(hash))
                },
                WorkView::Research { query } => {
                    &&& doc.get("kind"@) == Some(JsonView::Text("research"@))
                    &&& doc.get("query"@) == Some(JsonView::Text(query))
                },
                WorkView::Feed { url } => {
                    &&& doc.get("kind"@) == Some(JsonView::Text("feed"@))
                    &&& doc.get("url"@) == Some(JsonView::Text(url))
                },
                WorkView::Paper { object } => {
                    &&& doc.get("kind"@) == Some(JsonView::Text("paper"@))
                    &&& doc.get("object"@) == Some(JsonView::Text(object))
                },
                WorkView::Discord { channel, message } => {
                    &&& doc.get("kind"@) == Some(JsonView::Text("discord"@))
                    &&& doc.get("channel"@) == Some(JsonView::Text(channel))
                    &&& doc.get("message"@) == Some(message.json())
                },
                WorkView::DiscordSummary { channel } => {
                    &&& doc.get("kind"@) == Some(JsonView::Text("discord_summary"@))
                    &&& doc.get("channel"@) == Some(JsonView::Text(channel))
                },
                WorkView::Ask { text } => {
                    &&& doc.get("kind"@) == Some(JsonView::Text("ask"@))
                    &&& doc.get("text"@) == Some(JsonView::Text(text))
                },
                WorkView::Undo { job_id } => {
                    &&& doc.get("kind"@) == Some(JsonView::Text("undo"@))
                    &&& doc.get("job_id"@) == Some(JsonView::Text(job_id))
                },
            }
        }),
{
    lemma_documents();
    lemma_work_names();
}

/// The documents of announcements stand in the order in which they wait, one for each, with all that
/// is to be said.
pub proof fn law_announcements_document(list: Seq<AnnouncementView>)
    ensures
        announcements_json(list) is List,
        announcements_json(list)->List_0.len() == list.len(),
        forall|i: int|
            0 <= i < list.len() ==> {
                let doc = #[trigger] announcements_json(list)->List_0[i];
                &&& doc.get("id"@) == Some(JsonView::Text(list[i].id))
                &&& doc.get("text"@) == Some(JsonView::Text(list[i].text))
                &&& doc.get("detail"@) == Some(JsonView::Text(list[i].detail))
                &&& doc.get("urgent"@) == Some(JsonView::Bool(list[i].urgent))
            },
    decreases list.len(),
{
    lemma_documents();
    lemma_work_names();
    if list.len() > 0 {
        law_announcements_document(list.drop_last());
        let before = announcements_json(list.drop_last())->List_0;
        assert(announcements_json(list)->List_0 =~= before.push(list.last().json()));
    }
}

proof fn lemma_work_names()
    ensures
        "hash"@ != "kind"@,
        "hash"@ != "path"@,
        "kind"@ != "path"@,
        "kind"@ != "query"@,
        "kind"@ != "url"@,
        "kind"@ != "object"@,
        "channel"@ != "kind"@,
        "channel"@ != "message"@,
        "kind"@ != "message"@,
        "kind"@ != "text"@,
        "job_id"@ != "kind"@,
        "detail"@ != "id"@,
        "detail"@ != "text"@,
        "detail"@ != "urgent"@,
        "id"@ != "text"@,
        "id"@ != "urgent"@,
        "text"@ != "urgent"@,
{
    reveal_strlit("hash");
    reveal_strlit("kind");
    reveal_strlit("path");
    reveal_strlit("query");
    reveal_strlit("url");
    reveal_strlit("object");
    reveal_strlit("channel");
    reveal_strlit("message");
    reveal_strlit("text");
    reveal_strlit("job_id");
    reveal_strlit("detail");
    reveal_strlit("id");
    reveal_strlit("urgent");
    assert("hash"@.len() == 4);
    assert("kind"@.len() == 4);
    assert("path"@.len() == 4);
    assert("query"@.len() == 5);
    assert("url"@.len() == 3);
    assert("object"@.len() == 6);
    assert("channel"@.len() == 7);
    assert("message"@.len() == 7);
    assert("text"@.len() == 4);
    assert("job_id"@.len() == 6);
    assert("detail"@.len() == 6);
    assert("id"@.len() == 2);
    assert("urgent"@.len() == 6);
    assert("hash"@[0] != "kind"@[0]);
    assert("hash"@[0] != "path"@[0]);
    assert("kind"@[0] != "path"@[0]);
    assert("channel"@[0] != "message"@[0]);
    assert("kind"@[0] != "text"@[0]);
    assert("detail"@[0] != "urgent"@[0]);
}

} // verus!
