//! Email of the agent: evidence, decisions, and moves between folders.
use crate::agent::paths::{
    beneath, entry_of, join, law_one_name, law_parents_stay_below, law_segments, listed, parents,
    relative, safe_parents, segments,
};
use crate::base::limits::{digest, digested};
use crate::error::{seen, Error, ErrorView};
use crate::json::{Json, JsonView};
use crate::tasks::email::{
    admitted, classify, first_value, header, ranked, read_mail, read_text, text_parts, Mail,
    MailView, Tier,
};
use crate::text::{
    blank, byte_len, chars_of, first_at, is_blank, is_letter, letter, lowered, maybe, occurs,
    or_empty, same, size, split_once, stands_at, value_or_empty, views,
};
use vstd::prelude::*;

verus! {

// ---------------------------------------------------------------------------
// Evidence

/// What a model sees of a message.
#[derive(Debug)]
pub struct Evidence {
    pub from: String,
    pub subject: String,
    pub body: String,
    pub heuristic: Tier,
}

pub struct EvidenceView {
    pub from: Seq<char>,
    pub subject: Seq<char>,
    pub body: Seq<char>,
    pub heuristic: Tier,
}

impl View for Evidence {
    type V = EvidenceView;

    open spec fn view(&self) -> EvidenceView {
        EvidenceView {
            from: self.from@,
            subject: self.subject@,
            body: self.body@,
            heuristic: self.heuristic,
        }
    }
}

impl EvidenceView {
    pub open spec fn json(self) -> JsonView {
        JsonView::object().with("body"@, JsonView::Text(self.body)).with(
            "from"@,
            JsonView::Text(self.from),
        ).with("heuristic"@, JsonView::Text(self.heuristic.word())).with(
            "subject"@,
            JsonView::Text(self.subject),
        )
    }

    /// The text that a quote is looked up in.
    pub open spec fn source(self) -> Seq<char> {
        self.from + "\n"@ + self.subject + "\n"@ + self.body
    }
}

impl Evidence {
    pub fn json(&self) -> (res: Json)
        ensures
            res@ == self@.json(),
    {
        Json::object().with("body", Json::string(self.body.as_str())).with(
            "from",
            Json::string(self.from.as_str()),
        ).with("heuristic", Json::Text(self.heuristic.name())).with(
            "subject",
            Json::string(self.subject.as_str()),
        )
    }

    /// The text that a quote is looked up in.
    pub fn source(&self) -> (res: String)
        ensures
            res@ == self@.source(),
    {
        let mut out = self.from.clone();
        out.append("\n");
        out.append(self.subject.as_str());
        out.append("\n");
        out.append(self.body.as_str());
        out
    }
}

/// What a model sees of a message that was parsed.
pub open spec fn shown(mail: MailView) -> Result<EvidenceView, ErrorView> {
    match read_text(mail.parts, ""@, 24_000) {
        Err(words) => Err(ErrorView::Outside(words)),
        Ok(body) => {
            let subject = or_empty(header(mail.headers, "Subject"@));
            Ok(
                EvidenceView {
                    from: or_empty(header(mail.headers, "From"@)),
                    subject,
                    body,
                    heuristic: ranked(
                        lowered(subject + "\n"@ + body),
                        header(mail.headers, "List-Id"@) is Some,
                    ).0,
                },
            )
        },
    }
}

/// What a model sees of a message, which must be the one that was found.
pub open spec fn evident(bytes: Seq<u8>, expected: Seq<char>) -> Result<EvidenceView, ErrorView> {
    if digested(bytes) != expected {
        Err(ErrorView::EmailChanged)
    } else {
        match admitted(bytes) {
            Err(error) => Err(error),
            Ok(mail) => shown(mail),
        }
    }
}

/// What a model sees of a message that was parsed.
pub fn show(mail: &Mail) -> (res: Result<Evidence, Error>)
    ensures
        (match res {
            Ok(evidence) => Ok(evidence@),
            Err(error) => Err(error@),
        }) == shown(mail@),
{
    let subject = value_or_empty(first_value(&mail.headers, "Subject"));
    let from = value_or_empty(first_value(&mail.headers, "From"));
    let body = match text_parts(&mail.parts, 24_000) {
        Err(error) => {
            return Err(error);
        },
        Ok(body) => body,
    };
    let listed = first_value(&mail.headers, "List-Id").is_some();
    let (heuristic, _) = classify(subject.as_str(), body.as_str(), listed);
    Ok(Evidence { from, subject, body, heuristic })
}

/// What a model sees of a message, which must still have the digest `expected`.
pub fn evidence(bytes: &[u8], expected: &str) -> (res: Result<Evidence, Error>)
    ensures
        (match res {
            Ok(evidence) => Ok(evidence@),
            Err(error) => Err(error@),
        }) == evident(bytes@, expected@),
{
    if !same(digest(bytes).as_str(), expected) {
        return Err(Error::EmailChanged);
    }
    match read_mail(bytes) {
        Err(error) => Err(error),
        Ok(mail) => show(&mail),
    }
}

// ---------------------------------------------------------------------------
// Decisions

/// What a model decided on a message.
#[derive(Debug)]
pub struct Decision {
    pub tier: Tier,
    pub reason: String,
    pub evidence: Vec<String>,
    pub needs_review: bool,
}

pub struct DecisionView {
    pub tier: Tier,
    pub reason: Seq<char>,
    pub evidence: Seq<Seq<char>>,
    pub needs_review: bool,
}

impl View for Decision {
    type V = DecisionView;

    open spec fn view(&self) -> DecisionView {
        DecisionView {
            tier: self.tier,
            reason: self.reason@,
            evidence: views(self.evidence@),
            needs_review: self.needs_review,
        }
    }
}

/// Each quote says something and is short.
pub open spec fn quotable(quotes: Seq<Seq<char>>) -> bool {
    forall|i: int| 0 <= i < quotes.len() ==> 0 < (#[trigger] quotes[i]).len() && size(quotes[i])
        <= 1000
}

/// Each quote stands in the source.
pub open spec fn quoted(quotes: Seq<Seq<char>>, source: Seq<char>) -> bool {
    forall|i: int| 0 <= i < quotes.len() ==> occurs(source, #[trigger] quotes[i])
}

pub open spec fn texts_json(texts: Seq<Seq<char>>) -> JsonView
    decreases texts.len(),
{
    if texts.len() == 0 {
        JsonView::empty()
    } else {
        texts_json(texts.drop_last()).and(JsonView::Text(texts.last()))
    }
}

impl DecisionView {
    /// What is wrong with the decision.
    pub open spec fn fault(self) -> Option<ErrorView> {
        if blank(self.reason) || size(self.reason) > 2000 {
            Some(ErrorView::EmailReason)
        } else if !(0 < self.evidence.len() <= 8 && quotable(self.evidence)) {
            Some(ErrorView::EmailEvidence)
        } else {
            None
        }
    }

    pub open spec fn json(self) -> JsonView {
        JsonView::object().with("evidence"@, texts_json(self.evidence)).with(
            "needs_review"@,
            JsonView::Bool(self.needs_review),
        ).with("reason"@, JsonView::Text(self.reason)).with(
            "tier"@,
            JsonView::Text(self.tier.word()),
        )
    }
}

fn are_quotable(quotes: &Vec<String>) -> (res: bool)
    ensures
        res == quotable(views(quotes@)),
{
    let ghost all = views(quotes@);
    proof {
        reveal_strlit("");
    }
    let mut i: usize = 0;
    while i < quotes.len()
        invariant
            i <= quotes.len(),
            all == views(quotes@),
            ""@.len() == 0,
            forall|j: int| 0 <= j < i ==> 0 < (#[trigger] all[j]).len() && size(all[j]) <= 1000,
        decreases quotes.len() - i,
    {
        assert(all[i as int] == quotes@[i as int]@);
        assert(quotes@[i as int]@.len() == 0 ==> quotes@[i as int]@ =~= ""@);
        if same(quotes[i].as_str(), "") || byte_len(quotes[i].as_str()) > 1000 {
            return false;
        }
        i = i + 1;
    }
    true
}

fn texts_document(texts: &Vec<String>) -> (res: Json)
    ensures
        res@ == texts_json(views(texts@)),
{
    let ghost all = views(texts@);
    let mut out = Json::empty();
    let mut i: usize = 0;
    assert(all.take(0) =~= Seq::empty());
    while i < texts.len()
        invariant
            i <= texts.len(),
            all == views(texts@),
            out@ == texts_json(all.take(i as int)),
        decreases texts.len() - i,
    {
        assert(all.take(i + 1).drop_last() =~= all.take(i as int));
        out = out.and(Json::string(texts[i].as_str()));
        i = i + 1;
    }
    assert(all.take(i as int) =~= all);
    out
}

impl Decision {
    /// Admits a decision whose parts are within bounds.
    pub fn validate(&self) -> (res: Result<(), Error>)
        ensures
            seen(res) == match self@.fault() {
                None => Ok(()),
                Some(error) => Err(error),
            },
    {
        if is_blank(self.reason.as_str()) || byte_len(self.reason.as_str()) > 2000 {
            return Err(Error::EmailReason);
        }
        if !(0 < self.evidence.len() && self.evidence.len() <= 8 && are_quotable(&self.evidence)) {
            return Err(Error::EmailEvidence);
        }
        Ok(())
    }

    /// Whether each quote stands in the source, regardless of the model's confidence.
    pub fn is_quoted(&self, source: &str) -> (res: bool)
        ensures
            res == quoted(self@.evidence, source@),
    {
        let mut i: usize = 0;
        while i < self.evidence.len()
            invariant
                i <= self.evidence.len(),
                forall|j: int| 0 <= j < i ==> occurs(source@, #[trigger] self@.evidence[j]),
            decreases self.evidence.len() - i,
        {
            assert(self@.evidence[i as int] == self.evidence@[i as int]@);
            if !crate::text::contains(source, self.evidence[i].as_str()) {
                return false;
            }
            i = i + 1;
        }
        true
    }

    pub fn json(&self) -> (res: Json)
        ensures
            res@ == self@.json(),
    {
        Json::object().with("evidence", texts_document(&self.evidence)).with(
            "needs_review",
            Json::Bool(self.needs_review),
        ).with("reason", Json::string(self.reason.as_str())).with(
            "tier",
            Json::Text(self.tier.name()),
        )
    }
}

// ---------------------------------------------------------------------------
// Moves

/// A message goes from one place to another.
#[derive(Debug)]
pub struct Move {
    pub source: String,
    pub destination: String,
    /// The digest of the message.
    pub hash: String,
}

pub struct MoveView {
    pub source: Seq<char>,
    pub destination: Seq<char>,
    pub hash: Seq<char>,
}

impl View for Move {
    type V = MoveView;

    open spec fn view(&self) -> MoveView {
        MoveView { source: self.source@, destination: self.destination@, hash: self.hash@ }
    }
}

impl MoveView {
    /// The way back.
    pub open spec fn reverse(self) -> MoveView {
        MoveView { source: self.destination, destination: self.source, hash: self.hash }
    }

    pub open spec fn json(self) -> JsonView {
        JsonView::object().with("destination"@, JsonView::Text(self.destination)).with(
            "hash"@,
            JsonView::Text(self.hash),
        ).with("source"@, JsonView::Text(self.source))
    }
}

impl Move {
    /// The way back.
    pub fn reverse(self) -> (res: Move)
        ensures
            res@ == self@.reverse(),
    {
        Move { source: self.destination, destination: self.source, hash: self.hash }
    }

    pub fn json(&self) -> (res: Json)
        ensures
            res@ == self@.json(),
    {
        Json::object().with("destination", Json::string(self.destination.as_str())).with(
            "hash",
            Json::string(self.hash.as_str()),
        ).with("source", Json::string(self.source.as_str()))
    }
}

/// Going back twice is going.
pub proof fn law_reverse(movement: MoveView)
    ensures
        movement.reverse().reverse() == movement,
{
}

/// What is to be done in the mailbox next.
#[derive(Debug)]
pub enum MailAction {
    /// Find the mailbox: whether it is a link, and its full path if not.
    Root,
    /// Report whether this is a real directory.
    Inspect(String),
    /// Report whether this exists.
    Exists(String),
    /// Create this directory.
    Create(String),
    /// Read this file.
    Read(String),
    /// Give the first file the second name too, which must be free.
    Link(String, String),
    /// Sync the directory of this file.
    Sync(String),
    /// Remove this name.
    Remove(String),
    Planned(Result<Move, Error>),
    Applied(Result<(), Error>),
}

pub enum MailActionView {
    Root,
    Inspect(Seq<char>),
    Exists(Seq<char>),
    Create(Seq<char>),
    Read(Seq<char>),
    Link(Seq<char>, Seq<char>),
    Sync(Seq<char>),
    Remove(Seq<char>),
    Planned(Result<MoveView, ErrorView>),
    Applied(Result<(), ErrorView>),
}

impl View for MailAction {
    type V = MailActionView;

    open spec fn view(&self) -> MailActionView {
        match self {
            MailAction::Root => MailActionView::Root,
            MailAction::Inspect(path) => MailActionView::Inspect(path@),
            MailAction::Exists(path) => MailActionView::Exists(path@),
            MailAction::Create(path) => MailActionView::Create(path@),
            MailAction::Read(path) => MailActionView::Read(path@),
            MailAction::Link(from, to) => MailActionView::Link(from@, to@),
            MailAction::Sync(path) => MailActionView::Sync(path@),
            MailAction::Remove(path) => MailActionView::Remove(path@),
            MailAction::Planned(res) => MailActionView::Planned(
                match res {
                    Ok(movement) => Ok(movement@),
                    Err(error) => Err(error@),
                },
            ),
            MailAction::Applied(res) => MailActionView::Applied(seen(*res)),
        }
    }
}

/// What came of it.
#[derive(Debug)]
pub enum MailEvent {
    /// The mailbox's full path, or nothing where it is a link.
    Root(Option<String>),
    Directory(bool),
    Exists(bool),
    Bytes(Vec<u8>),
    Done,
    Failed(Error),
}

pub enum MailEventView {
    Root(Option<Seq<char>>),
    Directory(bool),
    Exists(bool),
    Bytes(Seq<u8>),
    Done,
    Failed(ErrorView),
}

impl View for MailEvent {
    type V = MailEventView;

    open spec fn view(&self) -> MailEventView {
        match self {
            MailEvent::Root(root) => MailEventView::Root(maybe(*root)),
            MailEvent::Directory(b) => MailEventView::Directory(*b),
            MailEvent::Exists(b) => MailEventView::Exists(*b),
            MailEvent::Bytes(bytes) => MailEventView::Bytes(bytes@),
            MailEvent::Done => MailEventView::Done,
            MailEvent::Failed(error) => MailEventView::Failed(error@),
        }
    }
}

/// The error of an event that does not answer what was asked.
pub open spec fn mishap(event: MailEventView) -> ErrorView {
    match event {
        MailEventView::Failed(error) => error,
        _ => ErrorView::Unexpected,
    }
}

fn mishap_of(event: MailEvent) -> (res: Error)
    ensures
        res@ == mishap(event@),
{
    match event {
        MailEvent::Failed(error) => error,
        _ => Error::Unexpected,
    }
}

// ---------------------------------------------------------------------------
// Applying a move

/// Where a move stands.
#[derive(Debug)]
pub enum ApplyStage {
    Rooting,
    /// Directories on the way to the source that were not inspected yet.
    SourceDirs(String, Vec<String>),
    /// Directories on the way to the destination that were not inspected yet.
    DestinationDirs(Vec<String>),
    Looking,
    Comparing,
    Taking,
    Linking,
    LinkSyncing,
    Leaving,
    Rechecking,
    Removing,
    RemoveSyncing,
    Verifying,
    Finished,
}

pub enum ApplyStageView {
    Rooting,
    SourceDirs(Seq<char>, Seq<Seq<char>>),
    DestinationDirs(Seq<Seq<char>>),
    Looking,
    Comparing,
    Taking,
    Linking,
    LinkSyncing,
    Leaving,
    Rechecking,
    Removing,
    RemoveSyncing,
    Verifying,
    Finished,
}

impl View for ApplyStage {
    type V = ApplyStageView;

    open spec fn view(&self) -> ApplyStageView {
        match self {
            ApplyStage::Rooting => ApplyStageView::Rooting,
            ApplyStage::SourceDirs(root, dirs) => ApplyStageView::SourceDirs(root@, views(dirs@)),
            ApplyStage::DestinationDirs(dirs) => ApplyStageView::DestinationDirs(views(dirs@)),
            ApplyStage::Looking => ApplyStageView::Looking,
            ApplyStage::Comparing => ApplyStageView::Comparing,
            ApplyStage::Taking => ApplyStageView::Taking,
            ApplyStage::Linking => ApplyStageView::Linking,
            ApplyStage::LinkSyncing => ApplyStageView::LinkSyncing,
            ApplyStage::Leaving => ApplyStageView::Leaving,
            ApplyStage::Rechecking => ApplyStageView::Rechecking,
            ApplyStage::Removing => ApplyStageView::Removing,
            ApplyStage::RemoveSyncing => ApplyStageView::RemoveSyncing,
            ApplyStage::Verifying => ApplyStageView::Verifying,
            ApplyStage::Finished => ApplyStageView::Finished,
        }
    }
}

pub open spec fn apply_ends(res: Result<(), ErrorView>) -> (ApplyStageView, MailActionView) {
    (ApplyStageView::Finished, MailActionView::Applied(res))
}

pub open spec fn apply_destination(dirs: Seq<Seq<char>>, movement: MoveView) -> (
    ApplyStageView,
    MailActionView,
) {
    if dirs.len() > 0 {
        (ApplyStageView::DestinationDirs(dirs), MailActionView::Inspect(dirs[0]))
    } else {
        (ApplyStageView::Looking, MailActionView::Exists(movement.destination))
    }
}

pub open spec fn apply_source(root: Seq<char>, dirs: Seq<Seq<char>>, movement: MoveView) -> (
    ApplyStageView,
    MailActionView,
) {
    if dirs.len() > 0 {
        (ApplyStageView::SourceDirs(root, dirs), MailActionView::Inspect(dirs[0]))
    } else {
        match parents(root, movement.destination) {
            Err(error) => apply_ends(Err(error)),
            Ok(dirs) => apply_destination(dirs, movement),
        }
    }
}

/// How a move goes on after `event`: the destination must be free or hold the message already;
/// the source is removed once the destination holds the message, and only while it holds the
/// message itself.
pub open spec fn apply_step(stage: ApplyStageView, movement: MoveView, event: MailEventView) -> (
    ApplyStageView,
    MailActionView,
) {
    match (stage, event) {
        (ApplyStageView::Rooting, MailEventView::Root(None)) => apply_ends(
            Err(ErrorView::MailRootSymlink),
        ),
        (ApplyStageView::Rooting, MailEventView::Root(Some(root))) => match parents(
            root,
            movement.source,
        ) {
            Err(error) => apply_ends(Err(error)),
            Ok(dirs) => apply_source(root, dirs, movement),
        },
        (ApplyStageView::SourceDirs(root, dirs), MailEventView::Directory(genuine)) => if genuine {
            apply_source(root, rest(dirs), movement)
        } else {
            apply_ends(Err(ErrorView::MailParentKind))
        },
        (ApplyStageView::DestinationDirs(dirs), MailEventView::Directory(genuine)) => if genuine {
            apply_destination(rest(dirs), movement)
        } else {
            apply_ends(Err(ErrorView::MailParentKind))
        },
        (ApplyStageView::Looking, MailEventView::Exists(exists)) => if exists {
            (ApplyStageView::Comparing, MailActionView::Read(movement.destination))
        } else {
            (ApplyStageView::Taking, MailActionView::Read(movement.source))
        },
        (ApplyStageView::Comparing, MailEventView::Bytes(bytes)) => if digested(bytes)
            == movement.hash {
            (ApplyStageView::Leaving, MailActionView::Exists(movement.source))
        } else {
            apply_ends(Err(ErrorView::DestinationConflict))
        },
        (ApplyStageView::Taking, MailEventView::Bytes(bytes)) => if digested(bytes)
            == movement.hash {
            (
                ApplyStageView::Linking,
                MailActionView::Link(movement.source, movement.destination),
            )
        } else {
            apply_ends(Err(ErrorView::SourceMissing))
        },
        (ApplyStageView::Linking, MailEventView::Done) => (
            ApplyStageView::LinkSyncing,
            MailActionView::Sync(movement.destination),
        ),
        (ApplyStageView::LinkSyncing, MailEventView::Done) => (
            ApplyStageView::Leaving,
            MailActionView::Exists(movement.source),
        ),
        (ApplyStageView::Leaving, MailEventView::Exists(exists)) => if exists {
            (ApplyStageView::Rechecking, MailActionView::Read(movement.source))
        } else {
            (ApplyStageView::Verifying, MailActionView::Read(movement.destination))
        },
        (ApplyStageView::Rechecking, MailEventView::Bytes(bytes)) => if digested(bytes)
            == movement.hash {
            (ApplyStageView::Removing, MailActionView::Remove(movement.source))
        } else {
            apply_ends(Err(ErrorView::SourceChanged))
        },
        (ApplyStageView::Removing, MailEventView::Done) => (
            ApplyStageView::RemoveSyncing,
            MailActionView::Sync(movement.source),
        ),
        (ApplyStageView::RemoveSyncing, MailEventView::Done) => (
            ApplyStageView::Verifying,
            MailActionView::Read(movement.destination),
        ),
        (ApplyStageView::Verifying, MailEventView::Bytes(bytes)) => if digested(bytes)
            == movement.hash {
            apply_ends(Ok(()))
        } else {
            apply_ends(Err(ErrorView::MoveUnverified))
        },
        (_, event) => apply_ends(Err(mishap(event))),
    }
}

/// A move under way.
#[derive(Debug)]
pub struct Apply {
    movement: Move,
    stage: ApplyStage,
}

/// The list without its first item.
pub open spec fn rest(list: Seq<Seq<char>>) -> Seq<Seq<char>> {
    if list.len() > 0 {
        list.drop_first()
    } else {
        list
    }
}

fn rest_of(list: Vec<String>) -> (res: Vec<String>)
    ensures
        views(res@) == rest(views(list@)),
{
    let mut list = list;
    let ghost before = list@;
    if list.len() > 0 {
        let _ = list.remove(0);
        assert(views(list@) =~= views(before).drop_first());
    }
    list
}

/// The message has the digest.
pub fn is_message(bytes: &Vec<u8>, hash: &str) -> (res: bool)
    ensures
        res == (digested(bytes@) == hash@),
{
    same(digest(bytes.as_slice()).as_str(), hash)
}

impl Apply {
    pub closed spec fn stage(&self) -> ApplyStageView {
        self.stage@
    }

    pub closed spec fn movement(&self) -> MoveView {
        self.movement@
    }

    fn destination(movement: &Move, dirs: Vec<String>) -> (res: (ApplyStage, MailAction))
        ensures
            (res.0@, res.1@) == apply_destination(views(dirs@), movement@),
    {
        if dirs.len() > 0 {
            let first = dirs[0].clone();
            (ApplyStage::DestinationDirs(dirs), MailAction::Inspect(first))
        } else {
            (ApplyStage::Looking, MailAction::Exists(movement.destination.clone()))
        }
    }

    fn source(movement: &Move, root: String, dirs: Vec<String>) -> (res: (ApplyStage, MailAction))
        ensures
            (res.0@, res.1@) == apply_source(root@, views(dirs@), movement@),
    {
        if dirs.len() > 0 {
            let first = dirs[0].clone();
            (ApplyStage::SourceDirs(root, dirs), MailAction::Inspect(first))
        } else {
            match safe_parents(root.as_str(), movement.destination.as_str()) {
                Err(error) => Apply::end(Err(error)),
                Ok(dirs) => Apply::destination(movement, dirs),
            }
        }
    }

    fn end(res: Result<(), Error>) -> (out: (ApplyStage, MailAction))
        ensures
            (out.0@, out.1@) == apply_ends(seen(res)),
    {
        (ApplyStage::Finished, MailAction::Applied(res))
    }

    /// Goes on after `event`.
    pub fn next(self, event: MailEvent) -> (res: (Apply, MailAction))
        ensures
            res.0.movement() == self.movement(),
            (res.0.stage(), res.1@) == apply_step(self.stage(), self.movement(), event@),
    {
        let movement = self.movement;
        let hash = movement.hash.as_str();
        let (stage, action) = match (self.stage, event) {
            (ApplyStage::Rooting, MailEvent::Root(root)) => match root {
                None => Apply::end(Err(Error::MailRootSymlink)),
                Some(root) => match safe_parents(root.as_str(), movement.source.as_str()) {
                    Err(error) => Apply::end(Err(error)),
                    Ok(dirs) => Apply::source(&movement, root, dirs),
                },
            },
            (ApplyStage::SourceDirs(root, dirs), MailEvent::Directory(genuine)) => if !genuine {
                Apply::end(Err(Error::MailParentKind))
            } else {
                Apply::source(&movement, root, rest_of(dirs))
            },
            (ApplyStage::DestinationDirs(dirs), MailEvent::Directory(genuine)) => if !genuine {
                Apply::end(Err(Error::MailParentKind))
            } else {
                Apply::destination(&movement, rest_of(dirs))
            },
            (ApplyStage::Looking, MailEvent::Exists(exists)) => if exists {
                (ApplyStage::Comparing, MailAction::Read(movement.destination.clone()))
            } else {
                (ApplyStage::Taking, MailAction::Read(movement.source.clone()))
            },
            (ApplyStage::Comparing, MailEvent::Bytes(bytes)) => if is_message(&bytes, hash) {
                (ApplyStage::Leaving, MailAction::Exists(movement.source.clone()))
            } else {
                Apply::end(Err(Error::DestinationConflict))
            },
            (ApplyStage::Taking, MailEvent::Bytes(bytes)) => if is_message(&bytes, hash) {
                (
                    ApplyStage::Linking,
                    MailAction::Link(movement.source.clone(), movement.destination.clone()),
                )
            } else {
                Apply::end(Err(Error::SourceMissing))
            },
            (ApplyStage::Linking, MailEvent::Done) => (
                ApplyStage::LinkSyncing,
                MailAction::Sync(movement.destination.clone()),
            ),
            (ApplyStage::LinkSyncing, MailEvent::Done) => (
                ApplyStage::Leaving,
                MailAction::Exists(movement.source.clone()),
            ),
            (ApplyStage::Leaving, MailEvent::Exists(exists)) => if exists {
                (ApplyStage::Rechecking, MailAction::Read(movement.source.clone()))
            } else {
                (ApplyStage::Verifying, MailAction::Read(movement.destination.clone()))
            },
            (ApplyStage::Rechecking, MailEvent::Bytes(bytes)) => if is_message(&bytes, hash) {
                (ApplyStage::Removing, MailAction::Remove(movement.source.clone()))
            } else {
                Apply::end(Err(Error::SourceChanged))
            },
            (ApplyStage::Removing, MailEvent::Done) => (
                ApplyStage::RemoveSyncing,
                MailAction::Sync(movement.source.clone()),
            ),
            (ApplyStage::RemoveSyncing, MailEvent::Done) => (
                ApplyStage::Verifying,
                MailAction::Read(movement.destination.clone()),
            ),
            (ApplyStage::Verifying, MailEvent::Bytes(bytes)) => if is_message(&bytes, hash) {
                Apply::end(Ok(()))
            } else {
                Apply::end(Err(Error::MoveUnverified))
            },
            (_, event) => Apply::end(Err(mishap_of(event))),
        };
        (Apply { movement, stage }, action)
    }
}

/// Begins a move: hard-link, then unlink. It never overwrites an existing message, and recovers
/// from an interruption at either point.
pub fn apply(movement: Move) -> (res: (Apply, MailAction))
    ensures
        res.0.movement() == movement@,
        (res.0.stage(), res.1@) == (ApplyStageView::Rooting, MailActionView::Root),
{
    (Apply { movement, stage: ApplyStage::Rooting }, MailAction::Root)
}

// ---------------------------------------------------------------------------
// What a move does to the mailbox

/// What `action` makes of the files when `event` comes of it, while nobody else touches them.
pub open spec fn mail_acted(
    before: Map<Seq<char>, Seq<u8>>,
    after: Map<Seq<char>, Seq<u8>>,
    action: MailActionView,
    event: MailEventView,
) -> bool {
    match action {
        MailActionView::Read(path) => {
            &&& after == before
            &&& event is Bytes ==> before.dom().contains(path) && before[path] == event->Bytes_0
        },
        MailActionView::Exists(path) => {
            &&& after == before
            &&& event is Exists ==> event->Exists_0 == before.dom().contains(path)
        },
        MailActionView::Link(from, to) => if event is Done {
            &&& before.dom().contains(from)
            &&& !before.dom().contains(to)
            &&& after == before.insert(to, before[from])
        } else {
            after == before
        },
        MailActionView::Remove(path) => if event is Done {
            after == before.remove(path)
        } else {
            after == before
        },
        _ => after == before,
    }
}

/// The file is there and has the digest.
pub open spec fn stands(files: Map<Seq<char>, Seq<u8>>, path: Seq<char>, hash: Seq<char>) -> bool {
    files.dom().contains(path) && digested(files[path]) == hash
}

/// The move has made the destination of the source.
pub open spec fn linked(first: Map<Seq<char>, Seq<u8>>, movement: MoveView) -> Map<
    Seq<char>,
    Seq<u8>,
> {
    first.insert(movement.destination, first[movement.source])
}

/// The destination holds the message, and beside it nothing changed.
pub open spec fn arrived(
    files: Map<Seq<char>, Seq<u8>>,
    first: Map<Seq<char>, Seq<u8>>,
    movement: MoveView,
) -> bool {
    &&& stands(files, movement.destination, movement.hash)
    &&& files == first || files == linked(first, movement) && !first.dom().contains(
        movement.destination,
    ) && stands(first, movement.source, movement.hash)
}

/// The destination holds the message, the source is gone, and beside them nothing changed.
pub open spec fn moved(
    files: Map<Seq<char>, Seq<u8>>,
    first: Map<Seq<char>, Seq<u8>>,
    movement: MoveView,
) -> bool {
    &&& stands(files, movement.destination, movement.hash)
    &&& !files.dom().contains(movement.source)
    &&& exists|full: Map<Seq<char>, Seq<u8>>| #[trigger]
        arrived(full, first, movement) && files == full.remove(movement.source) && (
        full.dom().contains(movement.source) ==> stands(full, movement.source, movement.hash))
}

/// What holds of the files while a move is under way that began with the files `first`.
pub open spec fn apply_holds(
    stage: ApplyStageView,
    files: Map<Seq<char>, Seq<u8>>,
    first: Map<Seq<char>, Seq<u8>>,
    movement: MoveView,
) -> bool {
    match stage {
        ApplyStageView::Rooting
        | ApplyStageView::SourceDirs(_, _)
        | ApplyStageView::DestinationDirs(_)
        | ApplyStageView::Looking => files == first,
        ApplyStageView::Comparing => files == first,
        ApplyStageView::Taking => files == first && !first.dom().contains(movement.destination),
        ApplyStageView::Linking => files == first && stands(first, movement.source, movement.hash)
            && !first.dom().contains(movement.destination),
        ApplyStageView::LinkSyncing | ApplyStageView::Leaving | ApplyStageView::Rechecking =>
        arrived(files, first, movement),
        ApplyStageView::Removing => arrived(files, first, movement) && stands(
            files,
            movement.source,
            movement.hash,
        ),
        ApplyStageView::RemoveSyncing | ApplyStageView::Verifying => moved(files, first, movement),
        ApplyStageView::Finished => {
            ||| files == first
            ||| arrived(files, first, movement)
            ||| moved(files, first, movement)
        },
    }
}

/// The action that a stage of a move waits for.
pub open spec fn apply_awaits(stage: ApplyStageView, movement: MoveView) -> MailActionView {
    match stage {
        ApplyStageView::Rooting | ApplyStageView::Finished => MailActionView::Root,
        ApplyStageView::SourceDirs(_, dirs) => MailActionView::Inspect(dirs[0]),
        ApplyStageView::DestinationDirs(dirs) => MailActionView::Inspect(dirs[0]),
        ApplyStageView::Looking => MailActionView::Exists(movement.destination),
        ApplyStageView::Comparing => MailActionView::Read(movement.destination),
        ApplyStageView::Taking => MailActionView::Read(movement.source),
        ApplyStageView::Linking => MailActionView::Link(movement.source, movement.destination),
        ApplyStageView::LinkSyncing => MailActionView::Sync(movement.destination),
        ApplyStageView::Leaving => MailActionView::Exists(movement.source),
        ApplyStageView::Rechecking => MailActionView::Read(movement.source),
        ApplyStageView::Removing => MailActionView::Remove(movement.source),
        ApplyStageView::RemoveSyncing => MailActionView::Sync(movement.source),
        ApplyStageView::Verifying => MailActionView::Read(movement.destination),
    }
}

/// A move loses no message and overwrites none, wherever it stops: at every point the files are
/// those that it began with, or the destination holds the message besides; the source is removed
/// only then; and a move that reports success has moved the message.
pub proof fn law_move_is_safe(
    stage: ApplyStageView,
    movement: MoveView,
    before: Map<Seq<char>, Seq<u8>>,
    after: Map<Seq<char>, Seq<u8>>,
    first: Map<Seq<char>, Seq<u8>>,
    event: MailEventView,
)
    requires
        movement.source != movement.destination,
        stage !is Finished,
        apply_holds(stage, before, first, movement),
        mail_acted(before, after, apply_awaits(stage, movement), event),
    ensures
        ({
            let (next, action) = apply_step(stage, movement, event);
            &&& apply_holds(next, after, first, movement)
            &&& next is Finished || action == apply_awaits(next, movement)
            &&& action == MailActionView::Applied(Ok(())) ==> moved(after, first, movement)
        }),
{
    let (next, action) = apply_step(stage, movement, event);
    match (stage, event) {
        (ApplyStageView::Linking, MailEventView::Done) => {
            assert(arrived(after, first, movement));
        },
        (ApplyStageView::Leaving, MailEventView::Exists(false)) => {
            assert(after.remove(movement.source) =~= after);
            assert(arrived(after, first, movement));
            assert(moved(after, first, movement));
        },
        (ApplyStageView::Removing, MailEventView::Done) => {
            assert(arrived(before, first, movement));
            assert(moved(after, first, movement));
        },
        _ => {},
    }
}

/// What a safe outcome means for every file: a file that is neither the source nor the destination
/// is untouched; a destination that was there is untouched; and the message of a source that was
/// there is still in one of the two places.
pub proof fn law_nothing_is_lost(
    files: Map<Seq<char>, Seq<u8>>,
    first: Map<Seq<char>, Seq<u8>>,
    movement: MoveView,
    path: Seq<char>,
)
    requires
        movement.source != movement.destination,
        apply_holds(ApplyStageView::Finished, files, first, movement),
        first.dom().contains(path),
    ensures
        path != movement.source ==> files.dom().contains(path) && files[path] == first[path],
        path == movement.source ==> (files.dom().contains(path) && files[path] == first[path])
            || stands(files, movement.destination, digested(first[path])),
{
    if moved(files, first, movement) {
        let full = choose|full: Map<Seq<char>, Seq<u8>>| #[trigger]
            arrived(full, first, movement) && files == full.remove(movement.source) && (
            full.dom().contains(movement.source) ==> stands(full, movement.source, movement.hash));
        assert(path != movement.source ==> full.dom().contains(path));
    }
}

/// A mailbox that does what it is asked: its directories are real, and nobody else touches its
/// files.
pub open spec fn mailbox_answers(
    files: Map<Seq<char>, Seq<u8>>,
    root: Seq<char>,
    action: MailActionView,
) -> (Map<Seq<char>, Seq<u8>>, MailEventView) {
    let refused = (files, MailEventView::Failed(ErrorView::Unexpected));
    match action {
        MailActionView::Root => (files, MailEventView::Root(Some(root))),
        MailActionView::Inspect(_) => (files, MailEventView::Directory(true)),
        MailActionView::Exists(path) => (files, MailEventView::Exists(files.contains_key(path))),
        MailActionView::Read(path) => if files.contains_key(path) {
            (files, MailEventView::Bytes(files[path]))
        } else {
            refused
        },
        MailActionView::Link(from, to) => if files.contains_key(from) && !files.contains_key(to) {
            (files.insert(to, files[from]), MailEventView::Done)
        } else {
            refused
        },
        MailActionView::Remove(path) => if files.contains_key(path) {
            (files.remove(path), MailEventView::Done)
        } else {
            refused
        },
        MailActionView::Sync(_) | MailActionView::Create(_) => (files, MailEventView::Done),
        MailActionView::Planned(_) | MailActionView::Applied(_) => refused,
    }
}

/// The files and the result after a move went on from a stage for `steps` steps at most.
pub open spec fn apply_run(
    files: Map<Seq<char>, Seq<u8>>,
    root: Seq<char>,
    movement: MoveView,
    turn: (ApplyStageView, MailActionView),
    steps: nat,
) -> (Map<Seq<char>, Seq<u8>>, Option<Result<(), ErrorView>>)
    decreases steps,
{
    match turn.1 {
        MailActionView::Applied(res) => (files, Some(res)),
        action => if steps == 0 {
            (files, None)
        } else {
            let answer = mailbox_answers(files, root, action);
            apply_run(
                answer.0,
                root,
                movement,
                apply_step(turn.0, movement, answer.1),
                (steps - 1) as nat,
            )
        },
    }
}

/// The files and the result after a whole move.
pub open spec fn applied(
    files: Map<Seq<char>, Seq<u8>>,
    root: Seq<char>,
    movement: MoveView,
    steps: nat,
) -> (Map<Seq<char>, Seq<u8>>, Option<Result<(), ErrorView>>) {
    apply_run(files, root, movement, (ApplyStageView::Rooting, MailActionView::Root), steps)
}

/// What a move comes to: a destination that holds another message and a source that does are left
/// alone and reported; else the message stands at the destination and the source is gone.
pub open spec fn apply_outcome(files: Map<Seq<char>, Seq<u8>>, movement: MoveView) -> (
    Map<Seq<char>, Seq<u8>>,
    Result<(), ErrorView>,
) {
    let source = movement.source;
    let destination = movement.destination;
    if files.contains_key(destination) {
        if digested(files[destination]) != movement.hash {
            (files, Err(ErrorView::DestinationConflict))
        } else if files.contains_key(source) && digested(files[source]) != movement.hash {
            (files, Err(ErrorView::SourceChanged))
        } else {
            (files.remove(source), Ok(()))
        }
    } else if digested(files[source]) != movement.hash {
        (files, Err(ErrorView::SourceMissing))
    } else {
        (files.insert(destination, files[source]).remove(source), Ok(()))
    }
}

/// How many steps a move takes at most.
pub open spec fn enough_steps(root: Seq<char>, movement: MoveView) -> nat {
    parents(root, movement.source)->Ok_0.len() + parents(root, movement.destination)->Ok_0.len()
        + 12
}

/// Both ends of the move stand below the root.
pub open spec fn within_root(root: Seq<char>, movement: MoveView) -> bool {
    parents(root, movement.source) is Ok && parents(root, movement.destination) is Ok
}

proof fn lemma_run_leaves(
    files: Map<Seq<char>, Seq<u8>>,
    root: Seq<char>,
    movement: MoveView,
    steps: nat,
)
    requires
        movement.source != movement.destination,
        stands(files, movement.destination, movement.hash),
        steps >= 6,
    ensures
        ({
            let turn = (ApplyStageView::Leaving, MailActionView::Exists(movement.source));
            apply_run(files, root, movement, turn, steps) == if files.contains_key(movement.source)
                && digested(files[movement.source]) != movement.hash {
                (files, Some(Err::<(), ErrorView>(ErrorView::SourceChanged)))
            } else {
                (files.remove(movement.source), Some(Ok::<(), ErrorView>(())))
            }
        }),
{
    reveal_with_fuel(apply_run, 7);
    if !files.contains_key(movement.source) {
        assert(files.remove(movement.source) =~= files);
    }
}

proof fn lemma_run_looks(
    files: Map<Seq<char>, Seq<u8>>,
    root: Seq<char>,
    movement: MoveView,
    steps: nat,
)
    requires
        movement.source != movement.destination,
        files.contains_key(movement.source) || files.contains_key(movement.destination),
        steps >= 10,
    ensures
        ({
            let turn = (ApplyStageView::Looking, MailActionView::Exists(movement.destination));
            let owed = apply_outcome(files, movement);
            apply_run(files, root, movement, turn, steps) == (owed.0, Some(owed.1))
        }),
{
    reveal_with_fuel(apply_run, 5);
    if files.contains_key(movement.destination) {
        if digested(files[movement.destination]) == movement.hash {
            lemma_run_leaves(files, root, movement, (steps - 2) as nat);
        }
    } else if digested(files[movement.source]) == movement.hash {
        let now = files.insert(movement.destination, files[movement.source]);
        lemma_run_leaves(now, root, movement, (steps - 4) as nat);
    }
}

proof fn lemma_run_destination(
    files: Map<Seq<char>, Seq<u8>>,
    root: Seq<char>,
    movement: MoveView,
    dirs: Seq<Seq<char>>,
    steps: nat,
)
    requires
        steps >= dirs.len(),
    ensures
        apply_run(files, root, movement, apply_destination(dirs, movement), steps) == apply_run(
            files,
            root,
            movement,
            (ApplyStageView::Looking, MailActionView::Exists(movement.destination)),
            (steps - dirs.len()) as nat,
        ),
    decreases dirs.len(),
{
    if dirs.len() > 0 {
        lemma_run_destination(files, root, movement, rest(dirs), (steps - 1) as nat);
    }
}

proof fn lemma_run_source(
    files: Map<Seq<char>, Seq<u8>>,
    root: Seq<char>,
    movement: MoveView,
    dirs: Seq<Seq<char>>,
    steps: nat,
)
    requires
        parents(root, movement.destination) is Ok,
        steps >= dirs.len() + parents(root, movement.destination)->Ok_0.len(),
    ensures
        apply_run(files, root, movement, apply_source(root, dirs, movement), steps) == apply_run(
            files,
            root,
            movement,
            (ApplyStageView::Looking, MailActionView::Exists(movement.destination)),
            (steps - dirs.len() - parents(root, movement.destination)->Ok_0.len()) as nat,
        ),
    decreases dirs.len(),
{
    if dirs.len() > 0 {
        lemma_run_source(files, root, movement, rest(dirs), (steps - 1) as nat);
    } else {
        lemma_run_destination(
            files,
            root,
            movement,
            parents(root, movement.destination)->Ok_0,
            steps,
        );
    }
}

/// What a move comes to in a mailbox that does what it is asked: exactly `apply_outcome`.
pub proof fn law_move_outcome(
    files: Map<Seq<char>, Seq<u8>>,
    root: Seq<char>,
    movement: MoveView,
    steps: nat,
)
    requires
        movement.source != movement.destination,
        within_root(root, movement),
        files.contains_key(movement.source) || files.contains_key(movement.destination),
        steps >= enough_steps(root, movement),
    ensures
        ({
            let owed = apply_outcome(files, movement);
            applied(files, root, movement, steps) == (owed.0, Some(owed.1))
        }),
{
    let dirs = parents(root, movement.source)->Ok_0;
    lemma_run_source(files, root, movement, dirs, (steps - 1) as nat);
    lemma_run_looks(
        files,
        root,
        movement,
        (steps - 1 - dirs.len() - parents(root, movement.destination)->Ok_0.len()) as nat,
    );
}

/// A message that is there is moved. Where the source holds the message, and the destination is
/// free or holds the same bytes from a move that was interrupted, the move succeeds, the message
/// stands at the destination and no longer at the source, and no other file changed. To move it
/// again changes nothing and succeeds. To go back succeeds too: the source is as it was, the
/// destination is free, and so the files are as they were if it was free before.
pub proof fn law_move_and_back(
    files: Map<Seq<char>, Seq<u8>>,
    root: Seq<char>,
    movement: MoveView,
    steps: nat,
)
    requires
        movement.source != movement.destination,
        within_root(root, movement),
        stands(files, movement.source, movement.hash),
        files.contains_key(movement.destination) ==> files[movement.destination]
            == files[movement.source],
        steps >= enough_steps(root, movement),
    ensures
        ({
            let now = files.insert(movement.destination, files[movement.source]).remove(
                movement.source,
            );
            let back = files.remove(movement.destination);
            let done = Some(Ok::<(), ErrorView>(()));
            &&& applied(files, root, movement, steps) == (now, done)
            &&& applied(now, root, movement, steps) == (now, done)
            &&& applied(now, root, movement.reverse(), steps) == (back, done)
            &&& !files.contains_key(movement.destination) ==> back == files
        }),
{
    let bytes = files[movement.source];
    let now = files.insert(movement.destination, bytes).remove(movement.source);
    let back = files.remove(movement.destination);
    law_move_outcome(files, root, movement, steps);
    law_move_outcome(now, root, movement, steps);
    law_move_outcome(now, root, movement.reverse(), steps);
    if files.contains_key(movement.destination) {
        assert(files.remove(movement.source) =~= now);
    } else {
        assert(back =~= files);
    }
    assert(now.remove(movement.source) =~= now);
    assert(now.insert(movement.source, bytes).remove(movement.destination) =~= back);
}

// ---------------------------------------------------------------------------
// Planning a move

/// The folder of a tier.
pub open spec fn folder(tier: Tier) -> Seq<char> {
    match tier {
        Tier::Critical => ".Lion-Critical"@,
        Tier::Important => ".Lion-Important"@,
        Tier::News => ".Lion-News"@,
        Tier::Other => ".Lion-Other"@,
    }
}

/// The directories that a tier's folder consists of, the folder itself first.
pub open spec fn folder_dir(root: Seq<char>, tier: Tier, i: nat) -> Seq<char> {
    let parent = entry_of(root, folder(tier));
    if i == 0 {
        parent
    } else if i == 1 {
        entry_of(parent, "new"@)
    } else if i == 2 {
        entry_of(parent, "cur"@)
    } else {
        entry_of(parent, "tmp"@)
    }
}

fn folder_name(tier: Tier) -> (res: String)
    ensures
        res@ == folder(tier),
{
    match tier {
        Tier::Critical => ".Lion-Critical".to_owned(),
        Tier::Important => ".Lion-Important".to_owned(),
        Tier::News => ".Lion-News".to_owned(),
        Tier::Other => ".Lion-Other".to_owned(),
    }
}

fn folder_path(root: &str, tier: Tier, i: usize) -> (res: String)
    ensures
        res@ == folder_dir(root@, tier, i as nat),
{
    let parent = join(root, folder_name(tier).as_str());
    if i == 0 {
        parent
    } else if i == 1 {
        join(parent.as_str(), "new")
    } else if i == 2 {
        join(parent.as_str(), "cur")
    } else {
        join(parent.as_str(), "tmp")
    }
}

/// The flags behind the mark in a message's name.
pub open spec fn flags_of(name: Seq<char>) -> Seq<char> {
    if occurs(name, ":2,"@) {
        name.skip(first_at(name, ":2,"@) + 3)
    } else {
        ""@
    }
}

/// `s` holds Latin letters only.
pub open spec fn letters(s: Seq<char>) -> bool {
    forall|i: int| 0 <= i < s.len() ==> letter(#[trigger] s[i])
}

fn are_letters(text: &str) -> (res: bool)
    ensures
        res == letters(text@),
{
    let v = chars_of(text);
    let mut i: usize = 0;
    while i < v.len()
        invariant
            v@ == text@,
            i <= v.len(),
            forall|j: int| 0 <= j < i ==> letter(#[trigger] v@[j]),
        decreases v.len() - i,
    {
        if !is_letter(v[i]) {
            return false;
        }
        i = i + 1;
    }
    true
}

/// The last name on the way to a file below `root`.
pub open spec fn last_name(root: Seq<char>, source: Seq<char>) -> Seq<char> {
    match beneath(root, source) {
        Some(names) => if names.len() > 0 {
            names.last()
        } else {
            ""@
        },
        None => ""@,
    }
}

/// The move of a message to its tier's folder: it keeps its flags, under a name made of its
/// digest that cannot collide with another message.
pub open spec fn destined(root: Seq<char>, source: Seq<char>, hash: Seq<char>, tier: Tier) -> Result<
    MoveView,
    ErrorView,
> {
    let flags = flags_of(last_name(root, source));
    if !letters(flags) {
        Err(ErrorView::MaildirFlags)
    } else {
        Ok(
            MoveView {
                source,
                destination: entry_of(
                    folder_dir(root, tier, 2),
                    "lion-"@ + hash + ":2,"@ + flags,
                ),
                hash,
            },
        )
    }
}

fn last_name_of(root: &str, source: &str) -> (res: String)
    ensures
        res@ == last_name(root@, source@),
{
    match relative(root, source) {
        Some(names) => if names.len() > 0 {
            assert(views(names@).last() == names@.last()@);
            names[names.len() - 1].clone()
        } else {
            "".to_owned()
        },
        None => "".to_owned(),
    }
}

fn destine(root: &str, source: &str, hash: &str, tier: Tier) -> (res: Result<Move, Error>)
    ensures
        (match res {
            Ok(movement) => Ok(movement@),
            Err(error) => Err(error@),
        }) == destined(root@, source@, hash@, tier),
{
    let name = last_name_of(root, source);
    proof {
        reveal_strlit(":2,");
    }
    let flags = match split_once(name.as_str(), ":2,") {
        Some((_, flags)) => flags,
        None => "".to_owned(),
    };
    if !are_letters(flags.as_str()) {
        return Err(Error::MaildirFlags);
    }
    let mut target = "lion-".to_owned();
    target.append(hash);
    target.append(":2,");
    target.append(flags.as_str());
    Ok(
        Move {
            source: source.to_owned(),
            destination: join(folder_path(root, tier, 2).as_str(), target.as_str()),
            hash: hash.to_owned(),
        },
    )
}

/// Where planning stands.
#[derive(Debug)]
pub enum PlanStage {
    Rooting,
    /// Directories on the way to the source that were not inspected yet.
    SourceDirs(String, Vec<String>),
    /// The root, and which of the folder's directories is made.
    Looking(String, usize),
    Creating(String, usize),
    Inspecting(String, usize),
    Finished,
}

pub enum PlanStageView {
    Rooting,
    SourceDirs(Seq<char>, Seq<Seq<char>>),
    Looking(Seq<char>, nat),
    Creating(Seq<char>, nat),
    Inspecting(Seq<char>, nat),
    Finished,
}

impl View for PlanStage {
    type V = PlanStageView;

    open spec fn view(&self) -> PlanStageView {
        match self {
            PlanStage::Rooting => PlanStageView::Rooting,
            PlanStage::SourceDirs(root, dirs) => PlanStageView::SourceDirs(root@, views(dirs@)),
            PlanStage::Looking(root, i) => PlanStageView::Looking(root@, *i as nat),
            PlanStage::Creating(root, i) => PlanStageView::Creating(root@, *i as nat),
            PlanStage::Inspecting(root, i) => PlanStageView::Inspecting(root@, *i as nat),
            PlanStage::Finished => PlanStageView::Finished,
        }
    }
}

pub open spec fn plan_ends(res: Result<MoveView, ErrorView>) -> (PlanStageView, MailActionView) {
    (PlanStageView::Finished, MailActionView::Planned(res))
}

pub open spec fn plan_source(root: Seq<char>, dirs: Seq<Seq<char>>, tier: Tier) -> (
    PlanStageView,
    MailActionView,
) {
    if dirs.len() > 0 {
        (PlanStageView::SourceDirs(root, dirs), MailActionView::Inspect(dirs[0]))
    } else {
        (PlanStageView::Looking(root, 0), MailActionView::Exists(folder_dir(root, tier, 0)))
    }
}

/// How planning goes on after `event`: the source must stand in the mailbox, and each directory
/// of the tier's folder is made if it is missing.
pub open spec fn plan_step(
    stage: PlanStageView,
    source: Seq<char>,
    hash: Seq<char>,
    tier: Tier,
    event: MailEventView,
) -> (PlanStageView, MailActionView) {
    match (stage, event) {
        (PlanStageView::Rooting, MailEventView::Root(None)) => plan_ends(
            Err(ErrorView::MailRootSymlink),
        ),
        (PlanStageView::Rooting, MailEventView::Root(Some(root))) => match parents(root, source) {
            Err(error) => plan_ends(Err(error)),
            Ok(dirs) => plan_source(root, dirs, tier),
        },
        (PlanStageView::SourceDirs(root, dirs), MailEventView::Directory(genuine)) => if genuine {
            plan_source(root, rest(dirs), tier)
        } else {
            plan_ends(Err(ErrorView::MailParentKind))
        },
        (PlanStageView::Looking(root, i), MailEventView::Exists(exists)) => if exists {
            (
                PlanStageView::Inspecting(root, i),
                MailActionView::Inspect(folder_dir(root, tier, i)),
            )
        } else {
            (PlanStageView::Creating(root, i), MailActionView::Create(folder_dir(root, tier, i)))
        },
        (PlanStageView::Creating(root, i), MailEventView::Done) => (
            PlanStageView::Inspecting(root, i),
            MailActionView::Inspect(folder_dir(root, tier, i)),
        ),
        (PlanStageView::Inspecting(root, i), MailEventView::Directory(genuine)) => if !genuine {
            plan_ends(
                Err(
                    if i == 0 {
                        ErrorView::DestinationFolder
                    } else {
                        ErrorView::MaildirFolder
                    },
                ),
            )
        } else if i < 3 {
            (
                PlanStageView::Looking(root, i + 1),
                MailActionView::Exists(folder_dir(root, tier, i + 1)),
            )
        } else {
            plan_ends(destined(root, source, hash, tier))
        },
        (_, event) => plan_ends(Err(mishap(event))),
    }
}

/// A plan under way.
#[derive(Debug)]
pub struct Plan {
    source: String,
    hash: String,
    tier: Tier,
    stage: PlanStage,
}

impl Plan {
    pub closed spec fn stage(&self) -> PlanStageView {
        self.stage@
    }

    pub closed spec fn source(&self) -> Seq<char> {
        self.source@
    }

    pub closed spec fn hash(&self) -> Seq<char> {
        self.hash@
    }

    pub closed spec fn tier(&self) -> Tier {
        self.tier
    }

    fn end(res: Result<Move, Error>) -> (out: (PlanStage, MailAction))
        ensures
            (out.0@, out.1@) == plan_ends(
                match res {
                    Ok(movement) => Ok(movement@),
                    Err(error) => Err(error@),
                },
            ),
    {
        (PlanStage::Finished, MailAction::Planned(res))
    }

    fn dirs(root: String, dirs: Vec<String>, tier: Tier) -> (res: (PlanStage, MailAction))
        ensures
            (res.0@, res.1@) == plan_source(root@, views(dirs@), tier),
    {
        if dirs.len() > 0 {
            let first = dirs[0].clone();
            (PlanStage::SourceDirs(root, dirs), MailAction::Inspect(first))
        } else {
            let path = folder_path(root.as_str(), tier, 0);
            (PlanStage::Looking(root, 0), MailAction::Exists(path))
        }
    }

    /// Goes on after `event`.
    pub fn next(self, event: MailEvent) -> (res: (Plan, MailAction))
        ensures
            res.0.source() == self.source(),
            res.0.hash() == self.hash(),
            res.0.tier() == self.tier(),
            (res.0.stage(), res.1@) == plan_step(
                self.stage(),
                self.source(),
                self.hash(),
                self.tier(),
                event@,
            ),
    {
        let source = self.source;
        let hash = self.hash;
        let tier = self.tier;
        let (stage, action) = match (self.stage, event) {
            (PlanStage::Rooting, MailEvent::Root(root)) => match root {
                None => Plan::end(Err(Error::MailRootSymlink)),
                Some(root) => match safe_parents(root.as_str(), source.as_str()) {
                    Err(error) => Plan::end(Err(error)),
                    Ok(dirs) => Plan::dirs(root, dirs, tier),
                },
            },
            (PlanStage::SourceDirs(root, dirs), MailEvent::Directory(genuine)) => if genuine {
                Plan::dirs(root, rest_of(dirs), tier)
            } else {
                Plan::end(Err(Error::MailParentKind))
            },
            (PlanStage::Looking(root, i), MailEvent::Exists(exists)) => {
                let path = folder_path(root.as_str(), tier, i);
                if exists {
                    (PlanStage::Inspecting(root, i), MailAction::Inspect(path))
                } else {
                    (PlanStage::Creating(root, i), MailAction::Create(path))
                }
            },
            (PlanStage::Creating(root, i), MailEvent::Done) => {
                let path = folder_path(root.as_str(), tier, i);
                (PlanStage::Inspecting(root, i), MailAction::Inspect(path))
            },
            (PlanStage::Inspecting(root, i), MailEvent::Directory(genuine)) => if !genuine {
                Plan::end(
                    Err(
                        if i == 0 {
                            Error::DestinationFolder
                        } else {
                            Error::MaildirFolder
                        },
                    ),
                )
            } else if i < 3 {
                let path = folder_path(root.as_str(), tier, i + 1);
                (PlanStage::Looking(root, i + 1), MailAction::Exists(path))
            } else {
                Plan::end(destine(root.as_str(), source.as_str(), hash.as_str(), tier))
            },
            (_, event) => Plan::end(Err(mishap_of(event))),
        };
        (Plan { source, hash, tier, stage }, action)
    }
}

/// Begins to plan the move of a message to the folder of its tier.
pub fn plan(source: String, hash: String, tier: Tier) -> (res: (Plan, MailAction))
    ensures
        res.0.source() == source@,
        res.0.hash() == hash@,
        res.0.tier() == tier,
        (res.0.stage(), res.1@) == (PlanStageView::Rooting, MailActionView::Root),
{
    (Plan { source, hash, tier, stage: PlanStage::Rooting }, MailAction::Root)
}

/// How the directories of a mailbox answer: those in `dirs` are there, and all of them are real.
pub open spec fn folders_answer(dirs: Set<Seq<char>>, root: Seq<char>, action: MailActionView) -> (
    Set<Seq<char>>,
    MailEventView,
) {
    match action {
        MailActionView::Root => (dirs, MailEventView::Root(Some(root))),
        MailActionView::Inspect(path) => (dirs, MailEventView::Directory(dirs.contains(path))),
        MailActionView::Exists(path) => (dirs, MailEventView::Exists(dirs.contains(path))),
        MailActionView::Create(path) => (dirs.insert(path), MailEventView::Done),
        _ => (dirs, MailEventView::Failed(ErrorView::Unexpected)),
    }
}

/// What comes of a plan within `steps` answers of the mailbox.
pub open spec fn plan_run(
    dirs: Set<Seq<char>>,
    root: Seq<char>,
    message: MoveView,
    tier: Tier,
    turn: (PlanStageView, MailActionView),
    steps: nat,
) -> (Set<Seq<char>>, Option<Result<MoveView, ErrorView>>)
    decreases steps,
{
    match turn.1 {
        MailActionView::Planned(res) => (dirs, Some(res)),
        action => if steps == 0 {
            (dirs, None)
        } else {
            let answer = folders_answer(dirs, root, action);
            plan_run(
                answer.0,
                root,
                message,
                tier,
                plan_step(turn.0, message.source, message.hash, tier, answer.1),
                (steps - 1) as nat,
            )
        },
    }
}

/// The directories together with those of a folder from the one of that number on.
spec fn with_folder(dirs: Set<Seq<char>>, root: Seq<char>, tier: Tier, i: nat) -> Set<Seq<char>>
    decreases 4 - i,
{
    if i >= 4 {
        dirs
    } else {
        with_folder(dirs.insert(folder_dir(root, tier, i)), root, tier, i + 1)
    }
}

proof fn lemma_plan_folders(
    dirs: Set<Seq<char>>,
    root: Seq<char>,
    message: MoveView,
    tier: Tier,
    i: nat,
    steps: nat,
)
    requires
        i < 4,
        steps >= 3 * (4 - i),
    ensures
        plan_run(
            dirs,
            root,
            message,
            tier,
            (PlanStageView::Looking(root, i), MailActionView::Exists(folder_dir(root, tier, i))),
            steps,
        ) == (
            with_folder(dirs, root, tier, i),
            Some(destined(root, message.source, message.hash, tier)),
        ),
    decreases 4 - i,
{
    reveal_with_fuel(plan_run, 4);
    let path = folder_dir(root, tier, i);
    let now = dirs.insert(path);
    let used: nat = if dirs.contains(path) {
        2
    } else {
        3
    };
    if dirs.contains(path) {
        assert(now =~= dirs);
    }
    reveal_with_fuel(with_folder, 2);
    if i < 3 {
        lemma_plan_folders(now, root, message, tier, i + 1, (steps - used) as nat);
    }
}

proof fn lemma_plan_source(
    dirs: Set<Seq<char>>,
    root: Seq<char>,
    message: MoveView,
    tier: Tier,
    list: Seq<Seq<char>>,
    steps: nat,
)
    requires
        forall|i: int| 0 <= i < list.len() ==> dirs.contains(#[trigger] list[i]),
        steps >= list.len() + 12,
    ensures
        plan_run(dirs, root, message, tier, plan_source(root, list, tier), steps) == (
            with_folder(dirs, root, tier, 0),
            Some(destined(root, message.source, message.hash, tier)),
        ),
    decreases list.len(),
{
    if list.len() == 0 {
        lemma_plan_folders(dirs, root, message, tier, 0, steps);
    } else {
        assert(dirs.contains(list[0]));
        assert forall|i: int| 0 <= i < list.drop_first().len() implies dirs.contains(
            #[trigger] list.drop_first()[i],
        ) by {
            assert(list.drop_first()[i] == list[i + 1]);
        }
        lemma_plan_source(dirs, root, message, tier, list.drop_first(), (steps - 1) as nat);
    }
}

proof fn lemma_first_flags(name: Seq<char>, n: int)
    requires
        stands_at(name, ":2,"@, n),
        forall|j: int| 0 <= j < n ==> !stands_at(name, ":2,"@, j),
    ensures
        flags_of(name) == name.skip(n + 3),
{
    let first = first_at(name, ":2,"@);
    assert(stands_at(name, ":2,"@, n) && (forall|j: int|
        0 <= j < n ==> !stands_at(name, ":2,"@, j)));
    assert(stands_at(name, ":2,"@, first) && (forall|j: int|
        0 <= j < first ==> !stands_at(name, ":2,"@, j)));
    assert(first == n);
}

proof fn lemma_folder_paths(root: Seq<char>, tier: Tier, name: Seq<char>)
    ensures
        ({
            let place = if root.len() > 0 && root.last() == '/' {
                root
            } else {
                root + "/"@
            };
            let parent = place + match tier {
                Tier::Critical => ".Lion-Critical"@,
                Tier::Important => ".Lion-Important"@,
                Tier::News => ".Lion-News"@,
                Tier::Other => ".Lion-Other"@,
            };
            &&& folder_dir(root, tier, 0) == parent
            &&& folder_dir(root, tier, 1) == parent + "/new"@
            &&& folder_dir(root, tier, 2) == parent + "/cur"@
            &&& folder_dir(root, tier, 3) == parent + "/tmp"@
            &&& entry_of(folder_dir(root, tier, 2), name) == parent + "/cur/"@ + name
        }),
{
    reveal_strlit("/");
    reveal_strlit(".Lion-Critical");
    reveal_strlit(".Lion-Important");
    reveal_strlit(".Lion-News");
    reveal_strlit(".Lion-Other");
    reveal_strlit("new");
    reveal_strlit("cur");
    reveal_strlit("tmp");
    reveal_strlit("/new");
    reveal_strlit("/cur");
    reveal_strlit("/tmp");
    reveal_strlit("/cur/");
    let parent = folder_dir(root, tier, 0);
    let named = folder(tier);
    assert(parent.last() == named.last());
    assert(named.last() != '/');
    assert("/"@ + "new"@ =~= "/new"@);
    assert("/"@ + "cur"@ =~= "/cur"@);
    assert("/"@ + "tmp"@ =~= "/tmp"@);
    assert(parent + "/"@ + "new"@ =~= parent + "/new"@);
    assert(parent + "/"@ + "cur"@ =~= parent + "/cur"@);
    assert(parent + "/"@ + "tmp"@ =~= parent + "/tmp"@);
    assert((parent + "/cur"@).last() == 'r');
    assert(parent + "/cur"@ + "/"@ + name =~= parent + "/cur/"@ + name);
}

/// Where a message goes: a plan of a message that stands below the mailbox makes the four
/// directories of its tier's folder, which is named for the tier, and gives the move into the
/// folder's `cur`, under a name of the message's digest and the flags that it had.
pub proof fn law_plan_outcome(
    dirs: Set<Seq<char>>,
    root: Seq<char>,
    dir: Seq<char>,
    name: Seq<char>,
    flags: Seq<char>,
    hash: Seq<char>,
    tier: Tier,
    steps: nat,
)
    requires
        name.len() > 0,
        name != "."@,
        forall|i: int| 0 <= i < name.len() ==> #[trigger] name[i] != '/',
        parents(root, dir + "/"@ + name) is Ok,
        forall|i: int|
            0 <= i < parents(root, dir + "/"@ + name)->Ok_0.len() ==> dirs.contains(
                #[trigger] parents(root, dir + "/"@ + name)->Ok_0[i],
            ),
        occurs(name, ":2,"@) ==> exists|n: int| #[trigger]
            stands_at(name, ":2,"@, n) && (forall|j: int|
                0 <= j < n ==> !stands_at(name, ":2,"@, j)) && flags == name.skip(n + 3),
        !occurs(name, ":2,"@) ==> flags == ""@,
        letters(flags),
        steps >= parents(root, dir + "/"@ + name)->Ok_0.len() + 13,
    ensures
        ({
            let source = dir + "/"@ + name;
            let place = if root.len() > 0 && root.last() == '/' {
                root
            } else {
                root + "/"@
            };
            let parent = place + match tier {
                Tier::Critical => ".Lion-Critical"@,
                Tier::Important => ".Lion-Important"@,
                Tier::News => ".Lion-News"@,
                Tier::Other => ".Lion-Other"@,
            };
            let message = MoveView { source, destination: ""@, hash };
            plan_run(
                dirs,
                root,
                message,
                tier,
                (PlanStageView::Rooting, MailActionView::Root),
                steps,
            ) == (
                dirs.insert(parent).insert(parent + "/new"@).insert(parent + "/cur"@).insert(
                    parent + "/tmp"@,
                ),
                Some(
                    Ok::<MoveView, ErrorView>(
                        MoveView {
                            source,
                            destination: parent + "/cur/"@ + ("lion-"@ + hash + ":2,"@ + flags),
                            hash,
                        },
                    ),
                ),
            )
        }),
{
    let source = dir + "/"@ + name;
    let message = MoveView { source, destination: ""@, hash };
    let list = parents(root, source)->Ok_0;
    lemma_plan_source(dirs, root, message, tier, list, (steps - 1) as nat);
    law_segments(dir, name);
    law_one_name(name);
    law_parents_stay_below(root, source);
    assert(last_name(root, source) == name) by {
        let names = beneath(root, source)->0;
        assert(names.len() > 0);
        assert(segments(source).last() == name);
        assert((segments(root) + names).last() == names.last());
    }
    if occurs(name, ":2,"@) {
        let n = choose|n: int| #[trigger]
            stands_at(name, ":2,"@, n) && (forall|j: int|
                0 <= j < n ==> !stands_at(name, ":2,"@, j)) && flags == name.skip(n + 3);
        lemma_first_flags(name, n);
    }
    assert(flags_of(name) == flags);
    lemma_folder_paths(root, tier, "lion-"@ + hash + ":2,"@ + flags);
    reveal_with_fuel(with_folder, 5);
}

/// Messages of two tiers never go to the same folder, and a message whose name ends in anything
/// but letters as flags is not moved at all.
pub proof fn law_folders_differ(
    root: Seq<char>,
    source: Seq<char>,
    hash: Seq<char>,
    one: Tier,
    other: Tier,
)
    ensures
        destined(root, source, hash, one) is Ok <==> letters(flags_of(last_name(root, source))),
        destined(root, source, hash, one) is Err ==> destined(root, source, hash, one)->Err_0
            == ErrorView::MaildirFlags,
        one != other && destined(root, source, hash, one) is Ok ==> destined(
            root,
            source,
            hash,
            one,
        )->Ok_0.destination != destined(root, source, hash, other)->Ok_0.destination,
{
    if one != other && destined(root, source, hash, one) is Ok {
        let name = "lion-"@ + hash + ":2,"@ + flags_of(last_name(root, source));
        lemma_folder_paths(root, one, name);
        lemma_folder_paths(root, other, name);
        reveal_strlit(".Lion-Critical");
        reveal_strlit(".Lion-Important");
        reveal_strlit(".Lion-News");
        reveal_strlit(".Lion-Other");
        let place = if root.len() > 0 && root.last() == '/' {
            root
        } else {
            root + "/"@
        };
        let a = place + folder(one) + "/cur/"@ + name;
        let b = place + folder(other) + "/cur/"@ + name;
        assert(a[place.len() as int + 6] == folder(one)[6]);
        assert(b[place.len() as int + 6] == folder(other)[6]);
    }
}

/// What a model is shown of a message is the message that was found: its bytes have the digest that
/// was noted, its sender and subject are those of its headers, its text is that of its readable
/// parts, up to 24,000 bytes of them, and the rules rank both together.
pub proof fn law_evidence(bytes: Seq<u8>, expected: Seq<char>)
    ensures
        digested(bytes) != expected ==> evident(bytes, expected) == Err::<EvidenceView, ErrorView>(
            ErrorView::EmailChanged,
        ),
        evident(bytes, expected) is Ok <==> digested(bytes) == expected && admitted(bytes) is Ok
            && read_text(admitted(bytes)->Ok_0.parts, ""@, 24_000) is Ok,
        evident(bytes, expected) is Ok ==> ({
            let mail = admitted(bytes)->Ok_0;
            let shown = evident(bytes, expected)->Ok_0;
            &&& shown.body == read_text(mail.parts, ""@, 24_000)->Ok_0
            &&& shown.heuristic == ranked(
                lowered(shown.subject + "\n"@ + shown.body),
                header(mail.headers, "List-Id"@) is Some,
            ).0
            &&& header(mail.headers, "Subject"@) is Some ==> shown.subject == header(
                mail.headers,
                "Subject"@,
            )->0
            &&& header(mail.headers, "Subject"@) is None ==> shown.subject.len() == 0
            &&& header(mail.headers, "From"@) is Some ==> shown.from == header(
                mail.headers,
                "From"@,
            )->0
            &&& header(mail.headers, "From"@) is None ==> shown.from.len() == 0
        }),
{
    reveal_strlit("");
}

/// The mailbox with some of its directories not being real ones: those in `solid` are.
pub open spec fn suspect_answers(solid: Set<Seq<char>>, root: Seq<char>, action: MailActionView) -> MailEventView {
    match action {
        MailActionView::Root => MailEventView::Root(Some(root)),
        MailActionView::Inspect(path) => MailEventView::Directory(solid.contains(path)),
        MailActionView::Exists(_) => MailEventView::Exists(true),
        _ => MailEventView::Done,
    }
}

/// What comes of the first steps of a move there, up to the first that is not an inspection.
pub open spec fn apply_inspected(
    solid: Set<Seq<char>>,
    root: Seq<char>,
    movement: MoveView,
    turn: (ApplyStageView, MailActionView),
    steps: nat,
) -> (ApplyStageView, MailActionView)
    decreases steps,
{
    if steps == 0 || !(turn.1 is Root || turn.1 is Inspect) {
        turn
    } else {
        apply_inspected(
            solid,
            root,
            movement,
            apply_step(turn.0, movement, suspect_answers(solid, root, turn.1)),
            (steps - 1) as nat,
        )
    }
}

/// What comes of the first steps of a plan there, up to the first that is not an inspection.
pub open spec fn plan_inspected(
    solid: Set<Seq<char>>,
    root: Seq<char>,
    message: MoveView,
    tier: Tier,
    turn: (PlanStageView, MailActionView),
    steps: nat,
) -> (PlanStageView, MailActionView)
    decreases steps,
{
    if steps == 0 || !(turn.1 is Root || turn.1 is Inspect) {
        turn
    } else {
        plan_inspected(
            solid,
            root,
            message,
            tier,
            plan_step(
                turn.0,
                message.source,
                message.hash,
                tier,
                suspect_answers(solid, root, turn.1),
            ),
            (steps - 1) as nat,
        )
    }
}

proof fn lemma_destination_inspected(
    solid: Set<Seq<char>>,
    root: Seq<char>,
    movement: MoveView,
    dirs: Seq<Seq<char>>,
    steps: nat,
)
    requires
        steps >= dirs.len(),
    ensures
        ({
            let end = apply_inspected(
                solid,
                root,
                movement,
                apply_destination(dirs, movement),
                steps,
            );
            if forall|i: int| 0 <= i < dirs.len() ==> solid.contains(#[trigger] dirs[i]) {
                end.1 == MailActionView::Exists(movement.destination)
            } else {
                end.1 == MailActionView::Applied(Err(ErrorView::MailParentKind))
            }
        }),
    decreases dirs.len(),
{
    reveal_with_fuel(apply_inspected, 2);
    if dirs.len() > 0 {
        let less = dirs.drop_first();
        assert(rest(dirs) == less);
        if solid.contains(dirs[0]) {
            lemma_destination_inspected(solid, root, movement, less, (steps - 1) as nat);
            lemma_all_of(solid, dirs);
        } else {
            assert(!solid.contains(dirs[0]));
        }
    }
}

proof fn lemma_all_of(solid: Set<Seq<char>>, dirs: Seq<Seq<char>>)
    requires
        dirs.len() > 0,
        solid.contains(dirs[0]),
    ensures
        (forall|i: int| 0 <= i < dirs.len() ==> solid.contains(#[trigger] dirs[i])) <==> (forall|
            i: int,
        |
            0 <= i < dirs.drop_first().len() ==> solid.contains(#[trigger] dirs.drop_first()[i])),
{
    let less = dirs.drop_first();
    if forall|i: int| 0 <= i < dirs.len() ==> solid.contains(#[trigger] dirs[i]) {
        assert forall|i: int| 0 <= i < less.len() implies solid.contains(#[trigger] less[i]) by {
            assert(less[i] == dirs[i + 1]);
        }
    }
    if forall|i: int| 0 <= i < less.len() ==> solid.contains(#[trigger] less[i]) {
        assert forall|i: int| 0 <= i < dirs.len() implies solid.contains(#[trigger] dirs[i]) by {
            if i > 0 {
                assert(less[i - 1] == dirs[i]);
            }
        }
    }
}

proof fn lemma_source_inspected(
    solid: Set<Seq<char>>,
    root: Seq<char>,
    movement: MoveView,
    dirs: Seq<Seq<char>>,
    steps: nat,
)
    requires
        parents(root, movement.destination) is Ok,
        steps >= dirs.len() + parents(root, movement.destination)->Ok_0.len(),
    ensures
        ({
            let end = apply_inspected(
                solid,
                root,
                movement,
                apply_source(root, dirs, movement),
                steps,
            );
            let there = parents(root, movement.destination)->Ok_0;
            if (forall|i: int| 0 <= i < dirs.len() ==> solid.contains(#[trigger] dirs[i])) && (forall|
                i: int,
            |
                0 <= i < there.len() ==> solid.contains(#[trigger] there[i])) {
                end.1 == MailActionView::Exists(movement.destination)
            } else {
                end.1 == MailActionView::Applied(Err(ErrorView::MailParentKind))
            }
        }),
    decreases dirs.len(),
{
    reveal_with_fuel(apply_inspected, 2);
    let there = parents(root, movement.destination)->Ok_0;
    if dirs.len() == 0 {
        lemma_destination_inspected(solid, root, movement, there, steps);
    } else {
        let less = dirs.drop_first();
        assert(rest(dirs) == less);
        if solid.contains(dirs[0]) {
            lemma_source_inspected(solid, root, movement, less, (steps - 1) as nat);
            lemma_all_of(solid, dirs);
        } else {
            assert(!solid.contains(dirs[0]));
        }
    }
}

proof fn lemma_plan_inspected(
    solid: Set<Seq<char>>,
    root: Seq<char>,
    message: MoveView,
    tier: Tier,
    dirs: Seq<Seq<char>>,
    steps: nat,
)
    requires
        steps >= dirs.len(),
    ensures
        ({
            let end = plan_inspected(
                solid,
                root,
                message,
                tier,
                plan_source(root, dirs, tier),
                steps,
            );
            if forall|i: int| 0 <= i < dirs.len() ==> solid.contains(#[trigger] dirs[i]) {
                end.1 is Exists
            } else {
                end.1 == MailActionView::Planned(Err(ErrorView::MailParentKind))
            }
        }),
    decreases dirs.len(),
{
    reveal_with_fuel(plan_inspected, 2);
    if dirs.len() > 0 {
        let less = dirs.drop_first();
        assert(rest(dirs) == less);
        if solid.contains(dirs[0]) {
            lemma_plan_inspected(solid, root, message, tier, less, (steps - 1) as nat);
            lemma_all_of(solid, dirs);
        } else {
            assert(!solid.contains(dirs[0]));
        }
    }
}

/// Nothing is moved through what is no real directory: before anything is read or linked, every
/// directory on the way to the message and on the way to its place is inspected, and one that is
/// not real ends the move, and the plan of it. A mailbox that is itself a link is refused, and so
/// is one without the message.
pub proof fn law_real_directories(
    solid: Set<Seq<char>>,
    root: Seq<char>,
    movement: MoveView,
    tier: Tier,
    steps: nat,
)
    requires
        within_root(root, movement),
        steps >= parents(root, movement.source)->Ok_0.len() + parents(
            root,
            movement.destination,
        )->Ok_0.len() + 1,
    ensures
        ({
            let here = parents(root, movement.source)->Ok_0;
            let there = parents(root, movement.destination)->Ok_0;
            let way = forall|i: int| 0 <= i < here.len() ==> solid.contains(#[trigger] here[i]);
            let back = forall|i: int| 0 <= i < there.len() ==> solid.contains(#[trigger] there[i]);
            let applied = apply_inspected(
                solid,
                root,
                movement,
                (ApplyStageView::Rooting, MailActionView::Root),
                steps,
            );
            let planned = plan_inspected(
                solid,
                root,
                movement,
                tier,
                (PlanStageView::Rooting, MailActionView::Root),
                steps,
            );
            &&& way && back ==> applied.1 == MailActionView::Exists(movement.destination)
            &&& !(way && back) ==> applied.1 == MailActionView::Applied(
                Err(ErrorView::MailParentKind),
            )
            &&& way ==> planned.1 is Exists
            &&& !way ==> planned.1 == MailActionView::Planned(Err(ErrorView::MailParentKind))
        }),
        apply_step(ApplyStageView::Rooting, movement, MailEventView::Root(None)).1
            == MailActionView::Applied(Err(ErrorView::MailRootSymlink)),
        plan_step(
            PlanStageView::Rooting,
            movement.source,
            movement.hash,
            tier,
            MailEventView::Root(None),
        ).1 == MailActionView::Planned(Err(ErrorView::MailRootSymlink)),
{
    let here = parents(root, movement.source)->Ok_0;
    lemma_source_inspected(solid, root, movement, here, (steps - 1) as nat);
    lemma_plan_inspected(solid, root, movement, tier, here, (steps - 1) as nat);
}

/// A directory of a folder that is not a real one ends the plan, whether it was there or was made:
/// each of the four is inspected before the next is looked at, and before the move is planned.
pub proof fn law_real_folders(
    root: Seq<char>,
    source: Seq<char>,
    hash: Seq<char>,
    tier: Tier,
    i: nat,
    exists_already: bool,
)
    ensures
        ({
            let looked = plan_step(
                PlanStageView::Looking(root, i),
                source,
                hash,
                tier,
                MailEventView::Exists(exists_already),
            );
            let inspected = if exists_already {
                looked
            } else {
                plan_step(looked.0, source, hash, tier, MailEventView::Done)
            };
            let odd = plan_step(
                inspected.0,
                source,
                hash,
                tier,
                MailEventView::Directory(false),
            );
            &&& inspected.1 is Inspect
            &&& !exists_already ==> looked.1 is Create && looked.1->Create_0
                == inspected.1->Inspect_0
            &&& odd.1 is Planned
            &&& odd.1->Planned_0 is Err
        }),
{
}

/// What is wrong with a mailbox ends a move before anything is changed: a root that is no real
/// directory, a message or a destination that stands outside of it, and flags that are no letters
/// are refused; so is whatever fails on the way.
pub proof fn law_moves_are_refused(
    root: Seq<char>,
    last: Seq<char>,
    movement: MoveView,
    tier: Tier,
    stage: ApplyStageView,
    planning: PlanStageView,
    error: ErrorView,
)
    ensures
        apply_step(ApplyStageView::Rooting, movement, MailEventView::Root(None)).1
            == MailActionView::Applied(Err(ErrorView::MailRootSymlink)),
        plan_step(
            PlanStageView::Rooting,
            movement.source,
            movement.hash,
            tier,
            MailEventView::Root(None),
        ).1 == MailActionView::Planned(Err(ErrorView::MailRootSymlink)),
        parents(root, movement.source) is Err ==> apply_step(
            ApplyStageView::Rooting,
            movement,
            MailEventView::Root(Some(root)),
        ).1 == MailActionView::Applied(Err(parents(root, movement.source)->Err_0)) && plan_step(
            PlanStageView::Rooting,
            movement.source,
            movement.hash,
            tier,
            MailEventView::Root(Some(root)),
        ).1 == MailActionView::Planned(Err(parents(root, movement.source)->Err_0)),
        parents(root, movement.destination) is Err ==> apply_step(
            ApplyStageView::SourceDirs(root, seq![last]),
            movement,
            MailEventView::Directory(true),
        ).1 == MailActionView::Applied(Err(parents(root, movement.destination)->Err_0)),
        !letters(flags_of(last_name(root, movement.source))) ==> plan_step(
            PlanStageView::Inspecting(root, 3),
            movement.source,
            movement.hash,
            tier,
            MailEventView::Directory(true),
        ).1 == MailActionView::Planned(Err(ErrorView::MaildirFlags)),
        apply_step(stage, movement, MailEventView::Failed(error)).1 == MailActionView::Applied(
            Err(error),
        ),
        plan_step(
            planning,
            movement.source,
            movement.hash,
            tier,
            MailEventView::Failed(error),
        ).1 == MailActionView::Planned(Err(error)),
{
    assert(rest(seq![last]) =~= Seq::<Seq<char>>::empty());
}

/// A message is what its digest says at every look: a destination with other bytes, a source with
/// other bytes before it is linked or before it is removed, and a destination with other bytes in
/// the end are each told, and nothing more is done.
pub proof fn law_bytes_are_checked(movement: MoveView, bytes: Seq<u8>)
    requires
        digested(bytes) != movement.hash,
    ensures
        ({
            let event = MailEventView::Bytes(bytes);
            &&& apply_step(ApplyStageView::Comparing, movement, event).1 == MailActionView::Applied(
                Err(ErrorView::DestinationConflict),
            )
            &&& apply_step(ApplyStageView::Taking, movement, event).1 == MailActionView::Applied(
                Err(ErrorView::SourceMissing),
            )
            &&& apply_step(ApplyStageView::Rechecking, movement, event).1 == MailActionView::Applied(
                Err(ErrorView::SourceChanged),
            )
            &&& apply_step(ApplyStageView::Verifying, movement, event).1 == MailActionView::Applied(
                Err(ErrorView::MoveUnverified),
            )
        }),
{
}

} // verus!
