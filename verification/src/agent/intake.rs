//! New work: research that is due, messages in the mailbox, papers in the store, questions on
//! Discord.
use crate::agent::discord::{
    arrange, arranged, asks, before_received, eligible, message_views, newest_received,
    receive_before, receive_messages, snowflake, snowflake_value, Message, MessageView,
};
use crate::agent::runtime::{activity, activity_name, enqueued, Runtime, RuntimeView};
use crate::agent::state::{StateView, Work, WorkView};
use crate::agent::ticking::later;
use crate::base::config::Config;
use crate::base::limits::{digest, digest_text, digested};
use crate::error::{Error, ErrorView};
use crate::failure::{told, Failure, FailureView};
use crate::table::{found, holding, without};
use crate::text::{begins, decimal, ends, ends_with, maybe, numeral, starts_with};
use vstd::prelude::*;

verus! {

/// Work to offer, under its identity.
#[derive(Debug)]
pub struct Item {
    pub id: String,
    pub work: Work,
}

pub open spec fn item_views(items: Seq<Item>) -> Seq<(Seq<char>, WorkView)> {
    Seq::new(items.len(), |i: int| (items[i].id@, items[i].work@))
}

/// What looking for work needs next.
#[derive(Debug)]
pub enum SeekNeed {
    /// Report whether this object exists.
    LookUp(String),
    /// Keep the state.
    Save,
    /// Find the full path of the mailbox.
    Root { maildir: String },
    /// Open this directory of the mailbox, if it is there.
    OpenMail { root: String, name: String },
    /// Take the next entry of the open directory.
    NextMail,
    /// Read this message.
    ReadMail { path: String },
    /// Open the store.
    OpenPapers,
    /// Take the next name in the store.
    NextPaper,
    /// Get the newest messages of a channel.
    Messages { channel: String },
    /// Get the messages of a channel before one of them.
    Before { channel: String, id: String },
    /// Nothing more.
    Finish(Result<(), Failure>),
}

pub enum SeekNeedView {
    LookUp(Seq<char>),
    Save,
    Root { maildir: Seq<char> },
    OpenMail { root: Seq<char>, name: Seq<char> },
    NextMail,
    ReadMail { path: Seq<char> },
    OpenPapers,
    NextPaper,
    Messages { channel: Seq<char> },
    Before { channel: Seq<char>, id: Seq<char> },
    Finish(Result<(), FailureView>),
}

impl View for SeekNeed {
    type V = SeekNeedView;

    open spec fn view(&self) -> SeekNeedView {
        match self {
            SeekNeed::LookUp(x) => SeekNeedView::LookUp(x@),
            SeekNeed::Save => SeekNeedView::Save,
            SeekNeed::Root { maildir } => SeekNeedView::Root { maildir: maildir@ },
            SeekNeed::OpenMail { root, name } => SeekNeedView::OpenMail {
                root: root@,
                name: name@,
            },
            SeekNeed::NextMail => SeekNeedView::NextMail,
            SeekNeed::ReadMail { path } => SeekNeedView::ReadMail { path: path@ },
            SeekNeed::OpenPapers => SeekNeedView::OpenPapers,
            SeekNeed::NextPaper => SeekNeedView::NextPaper,
            SeekNeed::Messages { channel } => SeekNeedView::Messages { channel: channel@ },
            SeekNeed::Before { channel, id } => SeekNeedView::Before { channel: channel@, id: id@ },
            SeekNeed::Finish(x) => SeekNeedView::Finish(told(*x)),
        }
    }
}

/// What came of it.
#[derive(Debug)]
pub enum SeekEvent {
    Known(bool),
    Done,
    Failed(Failure),
    Root(String),
    Missing,
    /// Whether it is a real directory, and open.
    Opened(bool),
    End,
    /// An entry, and whether it is a regular file.
    Entry { path: String, regular: bool },
    Bytes(Vec<u8>),
    Name(String),
    Messages(Vec<Message>),
}

pub enum SeekEventView {
    Known(bool),
    Done,
    Failed(FailureView),
    Root(Seq<char>),
    Missing,
    Opened(bool),
    End,
    Entry { path: Seq<char>, regular: bool },
    Bytes(Seq<u8>),
    Name(Seq<char>),
    Messages(Seq<MessageView>),
}

impl View for SeekEvent {
    type V = SeekEventView;

    open spec fn view(&self) -> SeekEventView {
        match self {
            SeekEvent::Known(x) => SeekEventView::Known(*x),
            SeekEvent::Done => SeekEventView::Done,
            SeekEvent::Failed(x) => SeekEventView::Failed(x@),
            SeekEvent::Root(x) => SeekEventView::Root(x@),
            SeekEvent::Missing => SeekEventView::Missing,
            SeekEvent::Opened(x) => SeekEventView::Opened(*x),
            SeekEvent::End => SeekEventView::End,
            SeekEvent::Entry { path, regular } => SeekEventView::Entry {
                path: path@,
                regular: *regular,
            },
            SeekEvent::Bytes(x) => SeekEventView::Bytes(x@),
            SeekEvent::Name(x) => SeekEventView::Name(x@),
            SeekEvent::Messages(x) => SeekEventView::Messages(message_views(x@)),
        }
    }
}

/// Where looking for work stands.
#[derive(Debug)]
pub enum SeekStage {
    /// Work to offer that was not offered yet.
    DueLooking { items: Vec<Item> },
    DueSaving { items: Vec<Item> },
    MailRooting,
    MailOpening { root: String, left: usize },
    MailTaking { root: String, left: usize },
    MailReading { root: String, left: usize, path: String },
    MailLooking { root: String, left: usize, path: String, hash: String },
    MailSaving { root: String, left: usize },
    PaperOpening,
    PaperTaking { left: usize },
    PaperLooking { left: usize, name: String },
    PaperSaving { left: usize },
    ChatStarting { at: usize },
    ChatStarted { at: usize },
    ChatScanning { at: usize, cursor: String, newest: Option<String> },
    ChatLooking { at: usize, cursor: String, high: String, finished: bool, rest: Vec<Message> },
    ChatQueued { at: usize, cursor: String, high: String, finished: bool, rest: Vec<Message> },
    ChatMarked { at: usize, cursor: String, high: String, finished: bool, rest: Vec<Message> },
    ChatClosing { at: usize },
    Finished,
}

pub enum SeekStageView {
    DueLooking { items: Seq<(Seq<char>, WorkView)> },
    DueSaving { items: Seq<(Seq<char>, WorkView)> },
    MailRooting,
    MailOpening { root: Seq<char>, left: nat },
    MailTaking { root: Seq<char>, left: nat },
    MailReading { root: Seq<char>, left: nat, path: Seq<char> },
    MailLooking { root: Seq<char>, left: nat, path: Seq<char>, hash: Seq<char> },
    MailSaving { root: Seq<char>, left: nat },
    PaperOpening,
    PaperTaking { left: nat },
    PaperLooking { left: nat, name: Seq<char> },
    PaperSaving { left: nat },
    ChatStarting { at: nat },
    ChatStarted { at: nat },
    ChatScanning { at: nat, cursor: Seq<char>, newest: Option<Seq<char>> },
    ChatLooking { at: nat, cursor: Seq<char>, high: Seq<char>, finished: bool, rest: Seq<MessageView> },
    ChatQueued { at: nat, cursor: Seq<char>, high: Seq<char>, finished: bool, rest: Seq<MessageView> },
    ChatMarked { at: nat, cursor: Seq<char>, high: Seq<char>, finished: bool, rest: Seq<MessageView> },
    ChatClosing { at: nat },
    Finished,
}

impl View for SeekStage {
    type V = SeekStageView;

    open spec fn view(&self) -> SeekStageView {
        match self {
            SeekStage::DueLooking { items } => SeekStageView::DueLooking {
                items: item_views(items@),
            },
            SeekStage::DueSaving { items } => SeekStageView::DueSaving {
                items: item_views(items@),
            },
            SeekStage::MailRooting => SeekStageView::MailRooting,
            SeekStage::MailOpening { root, left } => SeekStageView::MailOpening {
                root: root@,
                left: *left as nat,
            },
            SeekStage::MailTaking { root, left } => SeekStageView::MailTaking {
                root: root@,
                left: *left as nat,
            },
            SeekStage::MailReading { root, left, path } => SeekStageView::MailReading {
                root: root@,
                left: *left as nat,
                path: path@,
            },
            SeekStage::MailLooking { root, left, path, hash } => SeekStageView::MailLooking {
                root: root@,
                left: *left as nat,
                path: path@,
                hash: hash@,
            },
            SeekStage::MailSaving { root, left } => SeekStageView::MailSaving {
                root: root@,
                left: *left as nat,
            },
            SeekStage::PaperOpening => SeekStageView::PaperOpening,
            SeekStage::PaperTaking { left } => SeekStageView::PaperTaking { left: *left as nat },
            SeekStage::PaperLooking { left, name } => SeekStageView::PaperLooking {
                left: *left as nat,
                name: name@,
            },
            SeekStage::PaperSaving { left } => SeekStageView::PaperSaving { left: *left as nat },
            SeekStage::ChatStarting { at } => SeekStageView::ChatStarting { at: *at as nat },
            SeekStage::ChatStarted { at } => SeekStageView::ChatStarted { at: *at as nat },
            SeekStage::ChatScanning { at, cursor, newest } => SeekStageView::ChatScanning {
                at: *at as nat,
                cursor: cursor@,
                newest: maybe(*newest),
            },
            SeekStage::ChatLooking { at, cursor, high, finished, rest } => SeekStageView::ChatLooking {
                at: *at as nat,
                cursor: cursor@,
                high: high@,
                finished: *finished,
                rest: message_views(rest@),
            },
            SeekStage::ChatQueued { at, cursor, high, finished, rest } => SeekStageView::ChatQueued {
                at: *at as nat,
                cursor: cursor@,
                high: high@,
                finished: *finished,
                rest: message_views(rest@),
            },
            SeekStage::ChatMarked { at, cursor, high, finished, rest } => SeekStageView::ChatMarked {
                at: *at as nat,
                cursor: cursor@,
                high: high@,
                finished: *finished,
                rest: message_views(rest@),
            },
            SeekStage::ChatClosing { at } => SeekStageView::ChatClosing { at: *at as nat },
            SeekStage::Finished => SeekStageView::Finished,
        }
    }
}

/// The agent, where looking for work stands, and what it needs next.
pub struct SeekTurn {
    pub rt: RuntimeView,
    pub stage: SeekStageView,
    pub need: SeekNeedView,
}

pub open spec fn seek_ends(rt: RuntimeView, res: Result<(), FailureView>) -> SeekTurn {
    SeekTurn { rt, stage: SeekStageView::Finished, need: SeekNeedView::Finish(res) }
}

pub open spec fn seek_refused(rt: RuntimeView, error: ErrorView) -> SeekTurn {
    seek_ends(rt, Err(FailureView::Refused(error)))
}

fn end(res: Result<(), Failure>) -> (out: (SeekStage, SeekNeed))
    ensures
        out.0@ == SeekStageView::Finished,
        out.1@ == SeekNeedView::Finish(told(res)),
{
    (SeekStage::Finished, SeekNeed::Finish(res))
}

fn refused(error: Error) -> (out: (SeekStage, SeekNeed))
    ensures
        out.0@ == SeekStageView::Finished,
        out.1@ == SeekNeedView::Finish(Err(FailureView::Refused(error@))),
{
    end(Err(Failure::Refused(error)))
}

/// The identity of a piece of work: the digest of what tells it apart.
pub open spec fn identity(text: Seq<char>) -> Seq<char> {
    digested(vstd::utf8::encode_utf8(text))
}

/// The queue takes no more work.
pub open spec fn full(config: Config, rt: RuntimeView) -> bool {
    rt.state.jobs.len() >= config.agent.max_jobs
}

fn labelled(label: &str, middle: &str, last: &str) -> (res: String)
    ensures
        res@ == identity(label@ + middle@ + ":"@ + last@),
{
    let mut text = label.to_owned();
    text.append(middle);
    text.append(":");
    text.append(last);
    digest_text(text.as_str())
}

impl Runtime {
    fn is_full(&self) -> (res: bool)
        ensures
            res == full(self.config, self@),
    {
        self.state.jobs.len() >= self.config.agent.max_jobs
    }
}

// ---------------------------------------------------------------------------
// Research that is due

/// The searches that are due since `due`: the time is part of their identity, so that a search
/// that could not be queued is the same search when it is offered again.
pub open spec fn searches(queries: Seq<String>, due: u64) -> Seq<(Seq<char>, WorkView)> {
    Seq::new(
        queries.len(),
        |i: int|
            (
                identity("search:"@ + numeral(due as nat) + ":"@ + queries[i]@),
                WorkView::Research { query: queries[i]@ },
            ),
    )
}

/// The sources that are due since `due`.
pub open spec fn sources(feeds: Seq<String>, due: u64) -> Seq<(Seq<char>, WorkView)> {
    Seq::new(
        feeds.len(),
        |i: int|
            (
                identity("feed:"@ + numeral(due as nat) + ":"@ + feeds[i]@),
                WorkView::Feed { url: feeds[i]@ },
            ),
    )
}

pub open spec fn due_on(
    config: Config,
    rt: RuntimeView,
    time: u64,
    items: Seq<(Seq<char>, WorkView)>,
) -> SeekTurn {
    if items.len() == 0 {
        seek_ends(
            rt.with_state(
                StateView {
                    next_research: later(time, config.agent.research_secs as nat),
                    ..rt.state
                },
            ),
            Ok(()),
        )
    } else {
        SeekTurn {
            rt,
            stage: SeekStageView::DueLooking { items },
            need: SeekNeedView::LookUp(activity(items[0].0)),
        }
    }
}

/// How the research that is due is queued.
pub open spec fn scheduling(config: Config, rt: RuntimeView, time: u64) -> SeekTurn {
    if time < rt.state.next_research {
        seek_ends(rt, Ok(()))
    } else {
        due_on(
            config,
            rt,
            time,
            searches(config.agent.research_queries@, rt.state.next_research) + sources(
                config.agent.feeds@,
                rt.state.next_research,
            ),
        )
    }
}

/// The list without its first item.
pub open spec fn tail<T>(items: Seq<T>) -> Seq<T> {
    if items.len() > 0 {
        items.drop_first()
    } else {
        items
    }
}

pub open spec fn due_looked(
    config: Config,
    rt: RuntimeView,
    time: u64,
    items: Seq<(Seq<char>, WorkView)>,
    archived: bool,
) -> SeekTurn {
    if items.len() == 0 {
        due_on(config, rt, time, items)
    } else {
        let (now, res) = enqueued(
            config.agent.max_jobs as nat,
            rt,
            items[0].0,
            items[0].1,
            time,
            archived,
        );
        match res {
            Err(error) => seek_refused(now, error),
            Ok(true) => SeekTurn {
                rt: now,
                stage: SeekStageView::DueSaving { items: tail(items) },
                need: SeekNeedView::Save,
            },
            Ok(false) => due_on(config, now, time, tail(items)),
        }
    }
}

#[verifier::opaque]
pub open spec fn due_progress(
    config: Config,
    rt: RuntimeView,
    time: u64,
    stage: SeekStageView,
    event: SeekEventView,
) -> SeekTurn {
    match (stage, event) {
        (SeekStageView::DueLooking { items }, SeekEventView::Known(archived)) => due_looked(
            config,
            rt,
            time,
            items,
            archived,
        ),
        (SeekStageView::DueSaving { items }, SeekEventView::Done) => due_on(
            config,
            rt,
            time,
            items,
        ),
        (_, SeekEventView::Failed(failure)) => seek_ends(rt, Err(failure)),
        _ => seek_refused(rt, ErrorView::Unexpected),
    }
}

fn push_searches(items: &mut Vec<Item>, queries: &Vec<String>, due: u64)
    ensures
        item_views(final(items)@) == item_views(old(items)@) + searches(queries@, due),
{
    let ghost first = item_views(items@);
    let ghost all = searches(queries@, due);
    let mut i: usize = 0;
    assert(first + all.take(0) =~= first);
    while i < queries.len()
        invariant
            i <= queries.len(),
            all == searches(queries@, due),
            item_views(items@) == first + all.take(i as int),
        decreases queries.len() - i,
    {
        let ghost before = items@;
        let id = labelled("search:", decimal(due).as_str(), queries[i].as_str());
        items.push(Item { id, work: Work::Research { query: queries[i].clone() } });
        assert(item_views(items@) =~= first + all.take(i + 1)) by {
            assert(item_views(items@) =~= item_views(before).push(all[i as int]));
        }
        i = i + 1;
    }
    assert(all.take(i as int) =~= all);
}

fn push_sources(items: &mut Vec<Item>, feeds: &Vec<String>, due: u64)
    ensures
        item_views(final(items)@) == item_views(old(items)@) + sources(feeds@, due),
{
    let ghost first = item_views(items@);
    let ghost all = sources(feeds@, due);
    let mut i: usize = 0;
    assert(first + all.take(0) =~= first);
    while i < feeds.len()
        invariant
            i <= feeds.len(),
            all == sources(feeds@, due),
            item_views(items@) == first + all.take(i as int),
        decreases feeds.len() - i,
    {
        let ghost before = items@;
        let id = labelled("feed:", decimal(due).as_str(), feeds[i].as_str());
        items.push(Item { id, work: Work::Feed { url: feeds[i].clone() } });
        assert(item_views(items@) =~= first + all.take(i + 1)) by {
            assert(item_views(items@) =~= item_views(before).push(all[i as int]));
        }
        i = i + 1;
    }
    assert(all.take(i as int) =~= all);
}

impl Runtime {
    fn goes_due(&mut self, time: u64, items: Vec<Item>) -> (res: (SeekStage, SeekNeed))
        ensures
            (SeekTurn { rt: final(self)@, stage: res.0@, need: res.1@ }) == due_on(
                old(self).config,
                old(self)@,
                time,
                item_views(items@),
            ),
            final(self).config == old(self).config,
    {
        if items.len() == 0 {
            self.state.next_research = time.saturating_add(self.config.agent.research_secs);
            end(Ok(()))
        } else {
            let name = activity_name(items[0].id.as_str());
            (SeekStage::DueLooking { items }, SeekNeed::LookUp(name))
        }
    }

    fn looks_due(&mut self, time: u64, items: Vec<Item>, archived: bool) -> (res: (
        SeekStage,
        SeekNeed,
    ))
        ensures
            (SeekTurn { rt: final(self)@, stage: res.0@, need: res.1@ }) == due_looked(
                old(self).config,
                old(self)@,
                time,
                item_views(items@),
                archived,
            ),
            final(self).config == old(self).config,
    {
        let mut items = items;
        if items.len() == 0 {
            return self.goes_due(time, items);
        }
        let ghost before = items@;
        let item = items.remove(0);
        assert(item_views(items@) =~= tail(item_views(before)));
        assert(item_views(before)[0] == (item.id@, item.work@));
        match self.enqueue(item.id, item.work, time, archived) {
            Err(error) => refused(error),
            Ok(fresh) => if fresh {
                (SeekStage::DueSaving { items }, SeekNeed::Save)
            } else {
                self.goes_due(time, items)
            },
        }
    }

    fn due_goes_on(&mut self, time: u64, stage: SeekStage, event: SeekEvent) -> (res: (
        SeekStage,
        SeekNeed,
    ))
        ensures
            (SeekTurn { rt: final(self)@, stage: res.0@, need: res.1@ }) == due_progress(
                old(self).config,
                old(self)@,
                time,
                stage@,
                event@,
            ),
            final(self).config == old(self).config,
    {
        proof {
            reveal(due_progress);
        }
        match (stage, event) {
            (SeekStage::DueLooking { items }, SeekEvent::Known(archived)) => self.looks_due(
                time,
                items,
                archived,
            ),
            (SeekStage::DueSaving { items }, SeekEvent::Done) => self.goes_due(time, items),
            (_, SeekEvent::Failed(failure)) => end(Err(failure)),
            _ => refused(Error::Unexpected),
        }
    }
}

// ---------------------------------------------------------------------------
// Messages in the mailbox

/// How the mailbox is gone through: `left` more looks, none of them while the queue is full. Its
/// two directories are read in turn, and a round ends behind the second.
pub open spec fn mail_on(config: Config, rt: RuntimeView, root: Seq<char>, left: nat) -> SeekTurn {
    if left == 0 || full(config, rt) {
        seek_ends(rt, Ok(()))
    } else if rt.mail_open {
        SeekTurn {
            rt,
            stage: SeekStageView::MailTaking { root, left: (left - 1) as nat },
            need: SeekNeedView::NextMail,
        }
    } else if rt.mail_directory >= 2 {
        seek_ends(RuntimeView { mail_directory: 0, ..rt }, Ok(()))
    } else {
        SeekTurn {
            rt: RuntimeView { mail_directory: (rt.mail_directory + 1) as usize, ..rt },
            stage: SeekStageView::MailOpening { root, left: (left - 1) as nat },
            need: SeekNeedView::OpenMail {
                root,
                name: if rt.mail_directory == 0 {
                    "new"@
                } else {
                    "cur"@
                },
            },
        }
    }
}

/// The identity of a message: where it was found and what it is.
pub open spec fn mail_identity(root: Seq<char>, hash: Seq<char>) -> Seq<char> {
    identity("email:"@ + root + ":"@ + hash)
}

pub open spec fn mail_looked(
    config: Config,
    rt: RuntimeView,
    time: u64,
    root: Seq<char>,
    left: nat,
    path: Seq<char>,
    hash: Seq<char>,
    archived: bool,
) -> SeekTurn {
    let (now, res) = enqueued(
        config.agent.max_jobs as nat,
        rt,
        mail_identity(root, hash),
        WorkView::Email { path, hash },
        time,
        archived,
    );
    match res {
        Err(error) => seek_refused(now, error),
        Ok(true) => SeekTurn {
            rt: now,
            stage: SeekStageView::MailSaving { root, left },
            need: SeekNeedView::Save,
        },
        Ok(false) => mail_on(config, now, root, left),
    }
}

#[verifier::opaque]
pub open spec fn mail_seek(
    config: Config,
    rt: RuntimeView,
    time: u64,
    stage: SeekStageView,
    event: SeekEventView,
) -> SeekTurn {
    match (stage, event) {
        (SeekStageView::MailRooting, SeekEventView::Root(root)) => mail_on(
            config,
            rt,
            root,
            config.limits.max_emails_per_tick as nat,
        ),
        (SeekStageView::MailOpening { root, left }, SeekEventView::Missing) => mail_on(
            config,
            rt,
            root,
            left,
        ),
        (SeekStageView::MailOpening { root, left }, SeekEventView::Opened(genuine)) => if genuine {
            SeekTurn {
                rt: RuntimeView { mail_open: true, ..rt },
                stage: SeekStageView::MailTaking { root, left },
                need: SeekNeedView::NextMail,
            }
        } else {
            seek_refused(rt, ErrorView::MaildirFolder)
        },
        (SeekStageView::MailTaking { root, left }, SeekEventView::End) => mail_on(
            config,
            RuntimeView { mail_open: false, ..rt },
            root,
            left,
        ),
        (SeekStageView::MailTaking { root, left }, SeekEventView::Entry { path, regular }) =>
        if regular {
            SeekTurn {
                rt,
                stage: SeekStageView::MailReading { root, left, path },
                need: SeekNeedView::ReadMail { path },
            }
        } else {
            mail_on(config, rt, root, left)
        },
        (SeekStageView::MailReading { root, left, path }, SeekEventView::Bytes(bytes)) => SeekTurn {
            rt,
            stage: SeekStageView::MailLooking { root, left, path, hash: digested(bytes) },
            need: SeekNeedView::LookUp(activity(mail_identity(root, digested(bytes)))),
        },
        (SeekStageView::MailLooking { root, left, path, hash }, SeekEventView::Known(archived)) =>
        mail_looked(config, rt, time, root, left, path, hash, archived),
        (SeekStageView::MailSaving { root, left }, SeekEventView::Done) => mail_on(
            config,
            rt,
            root,
            left,
        ),
        (_, SeekEventView::Failed(failure)) => seek_ends(rt, Err(failure)),
        _ => seek_refused(rt, ErrorView::Unexpected),
    }
}

impl Runtime {
    fn mail_continues(&mut self, root: String, left: usize) -> (res: (SeekStage, SeekNeed))
        ensures
            (SeekTurn { rt: final(self)@, stage: res.0@, need: res.1@ }) == mail_on(
                old(self).config,
                old(self)@,
                root@,
                left as nat,
            ),
            final(self).config == old(self).config,
    {
        if left == 0 || self.is_full() {
            end(Ok(()))
        } else if self.mail_open {
            (SeekStage::MailTaking { root, left: left - 1 }, SeekNeed::NextMail)
        } else if self.mail_directory >= 2 {
            self.mail_directory = 0;
            end(Ok(()))
        } else {
            let name = if self.mail_directory == 0 {
                "new".to_owned()
            } else {
                "cur".to_owned()
            };
            self.mail_directory = self.mail_directory + 1;
            (
                SeekStage::MailOpening { root: root.clone(), left: left - 1 },
                SeekNeed::OpenMail { root, name },
            )
        }
    }

    fn mail_goes_looking(&mut self, time: u64, stage: SeekStage, event: SeekEvent) -> (res: (
        SeekStage,
        SeekNeed,
    ))
        ensures
            (SeekTurn { rt: final(self)@, stage: res.0@, need: res.1@ }) == mail_seek(
                old(self).config,
                old(self)@,
                time,
                stage@,
                event@,
            ),
            final(self).config == old(self).config,
    {
        proof {
            reveal(mail_seek);
        }
        match (stage, event) {
            (SeekStage::MailRooting, SeekEvent::Root(root)) => {
                let left = self.config.limits.max_emails_per_tick;
                self.mail_continues(root, left)
            },
            (SeekStage::MailOpening { root, left }, SeekEvent::Missing) => self.mail_continues(
                root,
                left,
            ),
            (SeekStage::MailOpening { root, left }, SeekEvent::Opened(genuine)) => if genuine {
                self.mail_open = true;
                (SeekStage::MailTaking { root, left }, SeekNeed::NextMail)
            } else {
                refused(Error::MaildirFolder)
            },
            (SeekStage::MailTaking { root, left }, SeekEvent::End) => {
                self.mail_open = false;
                self.mail_continues(root, left)
            },
            (SeekStage::MailTaking { root, left }, SeekEvent::Entry { path, regular }) =>
            if regular {
                (
                    SeekStage::MailReading { root, left, path: path.clone() },
                    SeekNeed::ReadMail { path },
                )
            } else {
                self.mail_continues(root, left)
            },
            (SeekStage::MailReading { root, left, path }, SeekEvent::Bytes(bytes)) => {
                let hash = digest(bytes.as_slice());
                let id = labelled("email:", root.as_str(), hash.as_str());
                let name = activity_name(id.as_str());
                (SeekStage::MailLooking { root, left, path, hash }, SeekNeed::LookUp(name))
            },
            (SeekStage::MailLooking { root, left, path, hash }, SeekEvent::Known(archived)) => {
                let id = labelled("email:", root.as_str(), hash.as_str());
                match self.enqueue(id, Work::Email { path, hash }, time, archived) {
                    Err(error) => refused(error),
                    Ok(fresh) => if fresh {
                        (SeekStage::MailSaving { root, left }, SeekNeed::Save)
                    } else {
                        self.mail_continues(root, left)
                    },
                }
            },
            (SeekStage::MailSaving { root, left }, SeekEvent::Done) => self.mail_continues(
                root,
                left,
            ),
            (_, SeekEvent::Failed(failure)) => end(Err(failure)),
            _ => refused(Error::Unexpected),
        }
    }
}

// ---------------------------------------------------------------------------
// Papers in the store

pub open spec fn papers_on(config: Config, rt: RuntimeView, left: nat) -> SeekTurn {
    if left == 0 || full(config, rt) {
        seek_ends(rt, Ok(()))
    } else {
        SeekTurn {
            rt,
            stage: SeekStageView::PaperTaking { left: (left - 1) as nat },
            need: SeekNeedView::NextPaper,
        }
    }
}

/// How papers are looked for: a hundred names at a time, going on where the last look ended.
pub open spec fn papers_begin(config: Config, rt: RuntimeView) -> SeekTurn {
    if rt.paper_open {
        papers_on(config, rt, 100)
    } else {
        SeekTurn { rt, stage: SeekStageView::PaperOpening, need: SeekNeedView::OpenPapers }
    }
}

/// The object keeps a paper.
pub open spec fn keeps_paper(name: Seq<char>) -> bool {
    begins(name, "paper-"@) && ends(name, ".json.gz"@)
}

pub open spec fn paper_looked(
    config: Config,
    rt: RuntimeView,
    time: u64,
    left: nat,
    name: Seq<char>,
    archived: bool,
) -> SeekTurn {
    let (now, res) = enqueued(
        config.agent.max_jobs as nat,
        rt,
        identity("select:"@ + name),
        WorkView::Paper { object: name },
        time,
        archived,
    );
    match res {
        Err(error) => seek_refused(now, error),
        Ok(true) => SeekTurn {
            rt: now,
            stage: SeekStageView::PaperSaving { left },
            need: SeekNeedView::Save,
        },
        Ok(false) => papers_on(config, now, left),
    }
}

#[verifier::opaque]
pub open spec fn paper_seek(
    config: Config,
    rt: RuntimeView,
    time: u64,
    stage: SeekStageView,
    event: SeekEventView,
) -> SeekTurn {
    match (stage, event) {
        (SeekStageView::PaperOpening, SeekEventView::Done) => papers_on(
            config,
            RuntimeView { paper_open: true, ..rt },
            100,
        ),
        (SeekStageView::PaperTaking { left }, SeekEventView::End) => seek_ends(
            RuntimeView { paper_open: false, ..rt },
            Ok(()),
        ),
        (SeekStageView::PaperTaking { left }, SeekEventView::Name(name)) => if keeps_paper(name) {
            SeekTurn {
                rt,
                stage: SeekStageView::PaperLooking { left, name },
                need: SeekNeedView::LookUp(activity(identity("select:"@ + name))),
            }
        } else {
            papers_on(config, rt, left)
        },
        (SeekStageView::PaperLooking { left, name }, SeekEventView::Known(archived)) =>
        paper_looked(config, rt, time, left, name, archived),
        (SeekStageView::PaperSaving { left }, SeekEventView::Done) => papers_on(config, rt, left),
        (_, SeekEventView::Failed(failure)) => seek_ends(rt, Err(failure)),
        _ => seek_refused(rt, ErrorView::Unexpected),
    }
}

fn paper_identity(name: &str) -> (res: String)
    ensures
        res@ == identity("select:"@ + name@),
{
    let mut text = "select:".to_owned();
    text.append(name);
    digest_text(text.as_str())
}

impl Runtime {
    fn papers_continue(&mut self, left: usize) -> (res: (SeekStage, SeekNeed))
        ensures
            (SeekTurn { rt: final(self)@, stage: res.0@, need: res.1@ }) == papers_on(
                old(self).config,
                old(self)@,
                left as nat,
            ),
            final(self).config == old(self).config,
    {
        if left == 0 || self.is_full() {
            end(Ok(()))
        } else {
            (SeekStage::PaperTaking { left: left - 1 }, SeekNeed::NextPaper)
        }
    }

    fn papers_go_looking(&mut self, time: u64, stage: SeekStage, event: SeekEvent) -> (res: (
        SeekStage,
        SeekNeed,
    ))
        ensures
            (SeekTurn { rt: final(self)@, stage: res.0@, need: res.1@ }) == paper_seek(
                old(self).config,
                old(self)@,
                time,
                stage@,
                event@,
            ),
            final(self).config == old(self).config,
    {
        proof {
            reveal(paper_seek);
        }
        match (stage, event) {
            (SeekStage::PaperOpening, SeekEvent::Done) => {
                self.paper_open = true;
                self.papers_continue(100)
            },
            (SeekStage::PaperTaking { .. }, SeekEvent::End) => {
                self.paper_open = false;
                end(Ok(()))
            },
            (SeekStage::PaperTaking { left }, SeekEvent::Name(name)) => if starts_with(
                name.as_str(),
                "paper-",
            ) && ends_with(name.as_str(), ".json.gz") {
                let object = activity_name(paper_identity(name.as_str()).as_str());
                (SeekStage::PaperLooking { left, name }, SeekNeed::LookUp(object))
            } else {
                self.papers_continue(left)
            },
            (SeekStage::PaperLooking { left, name }, SeekEvent::Known(archived)) => {
                let id = paper_identity(name.as_str());
                match self.enqueue(id, Work::Paper { object: name }, time, archived) {
                    Err(error) => refused(error),
                    Ok(fresh) => if fresh {
                        (SeekStage::PaperSaving { left }, SeekNeed::Save)
                    } else {
                        self.papers_continue(left)
                    },
                }
            },
            (SeekStage::PaperSaving { left }, SeekEvent::Done) => self.papers_continue(left),
            (_, SeekEvent::Failed(failure)) => end(Err(failure)),
            _ => refused(Error::Unexpected),
        }
    }
}

// ---------------------------------------------------------------------------
// Questions on Discord

pub open spec fn chat_channel(config: Config, at: nat) -> Seq<char> {
    if at < config.agent.discord.channels@.len() {
        config.agent.discord.channels@[at as int]@
    } else {
        ""@
    }
}

/// How a channel is taken up. One that is new is only noted, so that no old question is answered;
/// one that could not be gone through is gone on with where it was left.
pub open spec fn chat_on(config: Config, rt: RuntimeView, at: nat) -> SeekTurn {
    let channel = chat_channel(config, at);
    if at >= config.agent.discord.channels@.len() || full(config, rt) {
        seek_ends(rt, Ok(()))
    } else {
        match found(rt.state.discord_cursors, channel) {
            None => SeekTurn {
                rt,
                stage: SeekStageView::ChatStarting { at },
                need: SeekNeedView::Messages { channel },
            },
            Some(cursor) => match found(rt.state.discord_backfill, channel) {
                Some(scan) => SeekTurn {
                    rt,
                    stage: SeekStageView::ChatScanning { at, cursor, newest: Some(scan.0) },
                    need: SeekNeedView::Before { channel, id: scan.1 },
                },
                None => SeekTurn {
                    rt,
                    stage: SeekStageView::ChatScanning { at, cursor, newest: None },
                    need: SeekNeedView::Messages { channel },
                },
            },
        }
    }
}

/// A channel that is new: its newest message is where answering starts.
pub open spec fn chat_started(
    config: Config,
    rt: RuntimeView,
    at: nat,
    list: Seq<MessageView>,
) -> SeekTurn {
    let channel = chat_channel(config, at);
    match newest_received(list, channel) {
        Err(error) => seek_refused(rt, error),
        Ok(list) => SeekTurn {
            rt: rt.with_state(
                StateView {
                    discord_cursors: holding(
                        rt.state.discord_cursors,
                        channel,
                        if list.len() > 0 {
                            list.last().id
                        } else {
                            "0"@
                        },
                    ),
                    ..rt.state
                },
            ),
            stage: SeekStageView::ChatStarted { at },
            need: SeekNeedView::Save,
        },
    }
}

/// A channel that was gone through starts from its newest message; one that was not keeps its
/// place.
pub open spec fn chat_closed(
    config: Config,
    rt: RuntimeView,
    at: nat,
    high: Seq<char>,
    finished: bool,
) -> SeekTurn {
    let channel = chat_channel(config, at);
    if finished {
        SeekTurn {
            rt: rt.with_state(
                StateView {
                    discord_cursors: holding(rt.state.discord_cursors, channel, high),
                    discord_backfill: without(rt.state.discord_backfill, channel),
                    ..rt.state
                },
            ),
            stage: SeekStageView::ChatClosing { at },
            need: SeekNeedView::Save,
        }
    } else {
        chat_on(config, rt, at + 1)
    }
}

/// The identity of a question.
pub open spec fn chat_identity(channel: Seq<char>, id: Seq<char>) -> Seq<char> {
    identity("discord:"@ + channel + ":"@ + id)
}

/// The message is behind, and the place is kept.
pub open spec fn chat_marked(
    config: Config,
    rt: RuntimeView,
    at: nat,
    cursor: Seq<char>,
    high: Seq<char>,
    finished: bool,
    rest: Seq<MessageView>,
) -> SeekTurn {
    if rest.len() == 0 {
        seek_refused(rt, ErrorView::Unexpected)
    } else {
        SeekTurn {
            rt: rt.with_state(
                StateView {
                    discord_backfill: holding(
                        rt.state.discord_backfill,
                        chat_channel(config, at),
                        (high, rest[0].id),
                    ),
                    ..rt.state
                },
            ),
            stage: SeekStageView::ChatMarked { at, cursor, high, finished, rest: tail(rest) },
            need: SeekNeedView::Save,
        }
    }
}

/// The messages are gone through from the newest down to the place of the last round, or until
/// the queue is full.
pub open spec fn chat_walk(
    config: Config,
    rt: RuntimeView,
    at: nat,
    cursor: Seq<char>,
    high: Seq<char>,
    finished: bool,
    rest: Seq<MessageView>,
) -> SeekTurn {
    if rest.len() == 0 {
        chat_closed(config, rt, at, high, finished)
    } else {
        match (snowflake_value(rest[0].id), snowflake_value(cursor)) {
            (Err(error), _) => seek_refused(rt, error),
            (Ok(_), Err(error)) => seek_refused(rt, error),
            (Ok(id), Ok(last)) => if id <= last {
                chat_closed(config, rt, at, high, true)
            } else if full(config, rt) {
                chat_closed(config, rt, at, high, false)
            } else if rt.state.away && asks(rest[0], config.agent.discord.bot_id@) {
                SeekTurn {
                    rt,
                    stage: SeekStageView::ChatLooking { at, cursor, high, finished, rest },
                    need: SeekNeedView::LookUp(
                        activity(chat_identity(chat_channel(config, at), rest[0].id)),
                    ),
                }
            } else {
                chat_marked(config, rt, at, cursor, high, finished, rest)
            },
        }
    }
}

pub open spec fn chat_scanned(
    config: Config,
    rt: RuntimeView,
    at: nat,
    cursor: Seq<char>,
    high: Option<Seq<char>>,
    list: Seq<MessageView>,
) -> SeekTurn {
    let received = if high is Some {
        before_received(list)
    } else {
        newest_received(list, chat_channel(config, at))
    };
    match received {
        Err(error) => seek_refused(rt, error),
        Ok(list) => {
            let newest = arranged(list, true);
            chat_walk(
                config,
                rt,
                at,
                cursor,
                match high {
                    Some(high) => high,
                    None => if newest.len() > 0 {
                        newest[0].id
                    } else {
                        cursor
                    },
                },
                newest.len() < 100,
                newest,
            )
        },
    }
}

pub open spec fn chat_looked(
    config: Config,
    rt: RuntimeView,
    time: u64,
    at: nat,
    cursor: Seq<char>,
    high: Seq<char>,
    finished: bool,
    rest: Seq<MessageView>,
    archived: bool,
) -> SeekTurn {
    if rest.len() == 0 {
        seek_refused(rt, ErrorView::Unexpected)
    } else {
        let channel = chat_channel(config, at);
        let (now, res) = enqueued(
            config.agent.max_jobs as nat,
            rt,
            chat_identity(channel, rest[0].id),
            WorkView::Discord { channel, message: rest[0] },
            time,
            archived,
        );
        match res {
            Err(error) => seek_refused(now, error),
            Ok(true) => SeekTurn {
                rt: now,
                stage: SeekStageView::ChatQueued { at, cursor, high, finished, rest },
                need: SeekNeedView::Save,
            },
            Ok(false) => chat_marked(config, now, at, cursor, high, finished, rest),
        }
    }
}

#[verifier::opaque]
pub open spec fn chat_seek(
    config: Config,
    rt: RuntimeView,
    time: u64,
    stage: SeekStageView,
    event: SeekEventView,
) -> SeekTurn {
    match (stage, event) {
        (SeekStageView::ChatStarting { at }, SeekEventView::Messages(list)) => chat_started(
            config,
            rt,
            at,
            list,
        ),
        (SeekStageView::ChatStarted { at }, SeekEventView::Done) => chat_on(config, rt, at + 1),
        (SeekStageView::ChatScanning { at, cursor, newest }, SeekEventView::Messages(list)) =>
        chat_scanned(config, rt, at, cursor, newest, list),
        (
            SeekStageView::ChatLooking { at, cursor, high, finished, rest },
            SeekEventView::Known(archived),
        ) => chat_looked(config, rt, time, at, cursor, high, finished, rest, archived),
        (SeekStageView::ChatQueued { at, cursor, high, finished, rest }, SeekEventView::Done) =>
        chat_marked(config, rt, at, cursor, high, finished, rest),
        (SeekStageView::ChatMarked { at, cursor, high, finished, rest }, SeekEventView::Done) =>
        chat_walk(config, rt, at, cursor, high, finished, rest),
        (SeekStageView::ChatClosing { at }, SeekEventView::Done) => chat_on(config, rt, at + 1),
        (_, SeekEventView::Failed(failure)) => seek_ends(rt, Err(failure)),
        _ => seek_refused(rt, ErrorView::Unexpected),
    }
}

impl Runtime {
    fn channel_at(&self, at: usize) -> (res: String)
        ensures
            res@ == chat_channel(self.config, at as nat),
    {
        if at < self.config.agent.discord.channels.len() {
            self.config.agent.discord.channels[at].clone()
        } else {
            "".to_owned()
        }
    }

    fn chat_continues(&mut self, at: usize) -> (res: (SeekStage, SeekNeed))
        ensures
            (SeekTurn { rt: final(self)@, stage: res.0@, need: res.1@ }) == chat_on(
                old(self).config,
                old(self)@,
                at as nat,
            ),
            final(self).config == old(self).config,
    {
        let channel = self.channel_at(at);
        if at >= self.config.agent.discord.channels.len() || self.is_full() {
            return end(Ok(()));
        }
        match self.state.discord_cursors.get(channel.as_str()) {
            None => (SeekStage::ChatStarting { at }, SeekNeed::Messages { channel }),
            Some(cursor) => match self.state.discord_backfill.get(channel.as_str()) {
                Some(scan) => (
                    SeekStage::ChatScanning {
                        at,
                        cursor: cursor.clone(),
                        newest: Some(scan.0.clone()),
                    },
                    SeekNeed::Before { channel, id: scan.1.clone() },
                ),
                None => (
                    SeekStage::ChatScanning { at, cursor: cursor.clone(), newest: None },
                    SeekNeed::Messages { channel },
                ),
            },
        }
    }

    fn chat_next(&mut self, at: usize) -> (res: (SeekStage, SeekNeed))
        ensures
            (SeekTurn { rt: final(self)@, stage: res.0@, need: res.1@ }) == chat_on(
                old(self).config,
                old(self)@,
                (at + 1) as nat,
            ),
            final(self).config == old(self).config,
    {
        if at >= self.config.agent.discord.channels.len() {
            end(Ok(()))
        } else {
            self.chat_continues(at + 1)
        }
    }

    fn chat_starts(&mut self, at: usize, list: Vec<Message>) -> (res: (SeekStage, SeekNeed))
        ensures
            (SeekTurn { rt: final(self)@, stage: res.0@, need: res.1@ }) == chat_started(
                old(self).config,
                old(self)@,
                at as nat,
                message_views(list@),
            ),
            final(self).config == old(self).config,
    {
        let channel = self.channel_at(at);
        match receive_messages(list, channel.as_str()) {
            Err(error) => refused(error),
            Ok(list) => {
                let newest = if list.len() > 0 {
                    assert(message_views(list@).last() == list@.last()@);
                    list[list.len() - 1].id.clone()
                } else {
                    "0".to_owned()
                };
                self.state.discord_cursors.insert(channel.as_str(), newest);
                (SeekStage::ChatStarted { at }, SeekNeed::Save)
            },
        }
    }

    fn chat_closes(&mut self, at: usize, high: String, finished: bool) -> (res: (
        SeekStage,
        SeekNeed,
    ))
        ensures
            (SeekTurn { rt: final(self)@, stage: res.0@, need: res.1@ }) == chat_closed(
                old(self).config,
                old(self)@,
                at as nat,
                high@,
                finished,
            ),
            final(self).config == old(self).config,
    {
        if finished {
            let channel = self.channel_at(at);
            self.state.discord_cursors.insert(channel.as_str(), high);
            self.state.discord_backfill.remove(channel.as_str());
            (SeekStage::ChatClosing { at }, SeekNeed::Save)
        } else {
            self.chat_next(at)
        }
    }

    fn chat_marks(
        &mut self,
        at: usize,
        cursor: String,
        high: String,
        finished: bool,
        rest: Vec<Message>,
    ) -> (res: (SeekStage, SeekNeed))
        ensures
            (SeekTurn { rt: final(self)@, stage: res.0@, need: res.1@ }) == chat_marked(
                old(self).config,
                old(self)@,
                at as nat,
                cursor@,
                high@,
                finished,
                message_views(rest@),
            ),
            final(self).config == old(self).config,
    {
        let mut rest = rest;
        if rest.len() == 0 {
            return refused(Error::Unexpected);
        }
        let ghost before = rest@;
        let message = rest.remove(0);
        assert(message_views(rest@) =~= tail(message_views(before)));
        assert(message_views(before)[0] == message@);
        let channel = self.channel_at(at);
        self.state.discord_backfill.insert(channel.as_str(), (high.clone(), message.id));
        (SeekStage::ChatMarked { at, cursor, high, finished, rest }, SeekNeed::Save)
    }

    fn chat_walks(
        &mut self,
        at: usize,
        cursor: String,
        high: String,
        finished: bool,
        rest: Vec<Message>,
    ) -> (res: (SeekStage, SeekNeed))
        ensures
            (SeekTurn { rt: final(self)@, stage: res.0@, need: res.1@ }) == chat_walk(
                old(self).config,
                old(self)@,
                at as nat,
                cursor@,
                high@,
                finished,
                message_views(rest@),
            ),
            final(self).config == old(self).config,
    {
        if rest.len() == 0 {
            return self.chat_closes(at, high, finished);
        }
        assert(message_views(rest@)[0] == rest@[0]@);
        let id = match snowflake(rest[0].id.as_str()) {
            Err(error) => {
                return refused(error);
            },
            Ok(id) => id,
        };
        let last = match snowflake(cursor.as_str()) {
            Err(error) => {
                return refused(error);
            },
            Ok(last) => last,
        };
        if id <= last {
            return self.chat_closes(at, high, true);
        }
        if self.is_full() {
            return self.chat_closes(at, high, false);
        }
        if self.state.away && eligible(&rest[0], &self.config.agent.discord) {
            let channel = self.channel_at(at);
            let id = labelled("discord:", channel.as_str(), rest[0].id.as_str());
            let name = activity_name(id.as_str());
            return (
                SeekStage::ChatLooking { at, cursor, high, finished, rest },
                SeekNeed::LookUp(name),
            );
        }
        self.chat_marks(at, cursor, high, finished, rest)
    }

    fn chat_scans(
        &mut self,
        at: usize,
        cursor: String,
        high: Option<String>,
        list: Vec<Message>,
    ) -> (res: (SeekStage, SeekNeed))
        ensures
            (SeekTurn { rt: final(self)@, stage: res.0@, need: res.1@ }) == chat_scanned(
                old(self).config,
                old(self)@,
                at as nat,
                cursor@,
                maybe(high),
                message_views(list@),
            ),
            final(self).config == old(self).config,
    {
        let channel = self.channel_at(at);
        let received = if high.is_some() {
            receive_before(list)
        } else {
            receive_messages(list, channel.as_str())
        };
        match received {
            Err(error) => refused(error),
            Ok(list) => {
                let newest = arrange(list, true);
                let high = match high {
                    Some(high) => high,
                    None => if newest.len() > 0 {
                        assert(message_views(newest@)[0] == newest@[0]@);
                        newest[0].id.clone()
                    } else {
                        cursor.clone()
                    },
                };
                let finished = newest.len() < 100;
                self.chat_walks(at, cursor, high, finished, newest)
            },
        }
    }

    fn chat_looks(
        &mut self,
        time: u64,
        at: usize,
        cursor: String,
        high: String,
        finished: bool,
        rest: Vec<Message>,
        archived: bool,
    ) -> (res: (SeekStage, SeekNeed))
        ensures
            (SeekTurn { rt: final(self)@, stage: res.0@, need: res.1@ }) == chat_looked(
                old(self).config,
                old(self)@,
                time,
                at as nat,
                cursor@,
                high@,
                finished,
                message_views(rest@),
                archived,
            ),
            final(self).config == old(self).config,
    {
        if rest.len() == 0 {
            return refused(Error::Unexpected);
        }
        assert(message_views(rest@)[0] == rest@[0]@);
        let channel = self.channel_at(at);
        let id = labelled("discord:", channel.as_str(), rest[0].id.as_str());
        let message = Box::new(rest[0].clone());
        match self.enqueue(id, Work::Discord { channel, message }, time, archived) {
            Err(error) => refused(error),
            Ok(fresh) => if fresh {
                (SeekStage::ChatQueued { at, cursor, high, finished, rest }, SeekNeed::Save)
            } else {
                self.chat_marks(at, cursor, high, finished, rest)
            },
        }
    }

    fn chat_goes_looking(&mut self, time: u64, stage: SeekStage, event: SeekEvent) -> (res: (
        SeekStage,
        SeekNeed,
    ))
        ensures
            (SeekTurn { rt: final(self)@, stage: res.0@, need: res.1@ }) == chat_seek(
                old(self).config,
                old(self)@,
                time,
                stage@,
                event@,
            ),
            final(self).config == old(self).config,
    {
        proof {
            reveal(chat_seek);
        }
        match (stage, event) {
            (SeekStage::ChatStarting { at }, SeekEvent::Messages(list)) => self.chat_starts(
                at,
                list,
            ),
            (SeekStage::ChatStarted { at }, SeekEvent::Done) => self.chat_next(at),
            (SeekStage::ChatScanning { at, cursor, newest }, SeekEvent::Messages(list)) =>
            self.chat_scans(at, cursor, newest, list),
            (
                SeekStage::ChatLooking { at, cursor, high, finished, rest },
                SeekEvent::Known(archived),
            ) => self.chat_looks(time, at, cursor, high, finished, rest, archived),
            (SeekStage::ChatQueued { at, cursor, high, finished, rest }, SeekEvent::Done) =>
            self.chat_marks(at, cursor, high, finished, rest),
            (SeekStage::ChatMarked { at, cursor, high, finished, rest }, SeekEvent::Done) =>
            self.chat_walks(at, cursor, high, finished, rest),
            (SeekStage::ChatClosing { at }, SeekEvent::Done) => self.chat_next(at),
            (_, SeekEvent::Failed(failure)) => end(Err(failure)),
            _ => refused(Error::Unexpected),
        }
    }
}

// ---------------------------------------------------------------------------
// Looking for work

/// What is looked for, by where the looking stands.
pub enum Quest {
    Due,
    Mail,
    Papers,
    Chat,
}

impl SeekStageView {
    pub open spec fn quest(self) -> Quest {
        match self {
            SeekStageView::DueLooking { .. } | SeekStageView::DueSaving { .. } => Quest::Due,
            SeekStageView::MailRooting
            | SeekStageView::MailOpening { .. }
            | SeekStageView::MailTaking { .. }
            | SeekStageView::MailReading { .. }
            | SeekStageView::MailLooking { .. }
            | SeekStageView::MailSaving { .. } => Quest::Mail,
            SeekStageView::PaperOpening
            | SeekStageView::PaperTaking { .. }
            | SeekStageView::PaperLooking { .. }
            | SeekStageView::PaperSaving { .. } => Quest::Papers,
            _ => Quest::Chat,
        }
    }
}

/// How looking for work goes on after `event`.
pub open spec fn seek_step(
    config: Config,
    rt: RuntimeView,
    time: u64,
    stage: SeekStageView,
    event: SeekEventView,
) -> SeekTurn {
    match stage.quest() {
        Quest::Due => due_progress(config, rt, time, stage, event),
        Quest::Mail => mail_seek(config, rt, time, stage, event),
        Quest::Papers => paper_seek(config, rt, time, stage, event),
        Quest::Chat => chat_seek(config, rt, time, stage, event),
    }
}

/// How messages are looked for.
pub open spec fn mail_begins(config: Config, rt: RuntimeView) -> SeekTurn {
    match config.agent.email.maildir {
        None => seek_ends(rt, Ok(())),
        Some(maildir) => SeekTurn {
            rt,
            stage: SeekStageView::MailRooting,
            need: SeekNeedView::Root { maildir: maildir@ },
        },
    }
}

/// How questions are looked for: not at all while the service asks to be left alone.
pub open spec fn chat_begins(config: Config, rt: RuntimeView, time: u64) -> SeekTurn {
    if !config.agent.discord.enabled || time < rt.state.discord_retry_at {
        seek_ends(rt, Ok(()))
    } else {
        chat_on(config, rt, 0)
    }
}

/// Looking for work under way.
#[derive(Debug)]
pub struct Seek {
    pub stage: SeekStage,
    pub time: u64,
}

impl Runtime {
    /// Begins to queue the research that is due.
    pub fn schedule(&mut self, time: u64) -> (res: (Seek, SeekNeed))
        ensures
            (SeekTurn { rt: final(self)@, stage: res.0.stage@, need: res.1@ }) == scheduling(
                old(self).config,
                old(self)@,
                time,
            ),
            res.0.time == time,
            final(self).config == old(self).config,
    {
        if time < self.state.next_research {
            let (stage, need) = end(Ok(()));
            return (Seek { stage, time }, need);
        }
        let due = self.state.next_research;
        let mut items: Vec<Item> = Vec::new();
        assert(item_views(items@) =~= Seq::empty());
        push_searches(&mut items, &self.config.agent.research_queries, due);
        push_sources(&mut items, &self.config.agent.feeds, due);
        assert(item_views(items@) =~= searches(self.config.agent.research_queries@, due) + sources(
            self.config.agent.feeds@,
            due,
        ));
        let (stage, need) = self.goes_due(time, items);
        (Seek { stage, time }, need)
    }

    /// Begins to look for messages in the mailbox.
    pub fn discover_email(&mut self, time: u64) -> (res: (Seek, SeekNeed))
        ensures
            (SeekTurn { rt: final(self)@, stage: res.0.stage@, need: res.1@ }) == mail_begins(
                old(self).config,
                old(self)@,
            ),
            res.0.time == time,
            final(self).config == old(self).config,
    {
        match &self.config.agent.email.maildir {
            None => {
                let (stage, need) = end(Ok(()));
                (Seek { stage, time }, need)
            },
            Some(maildir) => (
                Seek { stage: SeekStage::MailRooting, time },
                SeekNeed::Root { maildir: maildir.clone() },
            ),
        }
    }

    /// Begins to look for papers in the store.
    pub fn discover_papers(&mut self, time: u64) -> (res: (Seek, SeekNeed))
        ensures
            (SeekTurn { rt: final(self)@, stage: res.0.stage@, need: res.1@ }) == papers_begin(
                old(self).config,
                old(self)@,
            ),
            res.0.time == time,
            final(self).config == old(self).config,
    {
        if self.paper_open {
            let (stage, need) = self.papers_continue(100);
            (Seek { stage, time }, need)
        } else {
            (Seek { stage: SeekStage::PaperOpening, time }, SeekNeed::OpenPapers)
        }
    }

    /// Begins to look for questions on Discord.
    pub fn discover_discord(&mut self, time: u64) -> (res: (Seek, SeekNeed))
        ensures
            (SeekTurn { rt: final(self)@, stage: res.0.stage@, need: res.1@ }) == chat_begins(
                old(self).config,
                old(self)@,
                time,
            ),
            res.0.time == time,
            final(self).config == old(self).config,
    {
        let (stage, need) = if !self.config.agent.discord.enabled || time
            < self.state.discord_retry_at {
            end(Ok(()))
        } else {
            self.chat_continues(0)
        };
        (Seek { stage, time }, need)
    }

    /// Goes on to look for work after `event`.
    pub fn seek_on(&mut self, seek: Seek, event: SeekEvent) -> (res: (Seek, SeekNeed))
        ensures
            (SeekTurn { rt: final(self)@, stage: res.0.stage@, need: res.1@ }) == seek_step(
                old(self).config,
                old(self)@,
                seek.time,
                seek.stage@,
                event@,
            ),
            res.0.time == seek.time,
            final(self).config == old(self).config,
    {
        let time = seek.time;
        let stage = seek.stage;
        let (stage, need) = match &stage {
            SeekStage::DueLooking { .. } | SeekStage::DueSaving { .. } => self.due_goes_on(
                time,
                stage,
                event,
            ),
            SeekStage::MailRooting
            | SeekStage::MailOpening { .. }
            | SeekStage::MailTaking { .. }
            | SeekStage::MailReading { .. }
            | SeekStage::MailLooking { .. }
            | SeekStage::MailSaving { .. } => self.mail_goes_looking(time, stage, event),
            SeekStage::PaperOpening
            | SeekStage::PaperTaking { .. }
            | SeekStage::PaperLooking { .. }
            | SeekStage::PaperSaving { .. } => self.papers_go_looking(time, stage, event),
            _ => self.chat_goes_looking(time, stage, event),
        };
        (Seek { stage, time }, need)
    }
}

} // verus!
