//! Papers as objects of the store.
use crate::base::limits::{digest_text, digested};
use crate::error::{Error, ErrorView};
use crate::failure::{told, Failure, FailureView};
use crate::json::{lemma_documents, Json, JsonView};
use crate::tasks::aerospace::compress::{compress, packed};
use vstd::prelude::*;

verus! {

/// What is kept of a paper.
#[derive(Debug)]
pub struct Paper {
    pub source: String,
    pub id: String,
    pub title: String,
    pub abstract_text: String,
    pub url: String,
    pub published: String,
}

pub struct PaperView {
    pub source: Seq<char>,
    pub id: Seq<char>,
    pub title: Seq<char>,
    pub abstract_text: Seq<char>,
    pub url: Seq<char>,
    pub published: Seq<char>,
}

impl View for Paper {
    type V = PaperView;

    open spec fn view(&self) -> PaperView {
        PaperView {
            source: self.source@,
            id: self.id@,
            title: self.title@,
            abstract_text: self.abstract_text@,
            url: self.url@,
            published: self.published@,
        }
    }
}

pub open spec fn paper_views(papers: Seq<Paper>) -> Seq<PaperView> {
    Seq::new(papers.len(), |i: int| papers[i]@)
}

impl Clone for Paper {
    fn clone(&self) -> (res: Paper)
        ensures
            res@ == self@,
    {
        Paper {
            source: self.source.clone(),
            id: self.id.clone(),
            title: self.title.clone(),
            abstract_text: self.abstract_text.clone(),
            url: self.url.clone(),
            published: self.published.clone(),
        }
    }
}

impl PaperView {
    pub open spec fn json(self) -> JsonView {
        JsonView::object().with("abstract_text"@, JsonView::Text(self.abstract_text)).with(
            "id"@,
            JsonView::Text(self.id),
        ).with("published"@, JsonView::Text(self.published)).with(
            "source"@,
            JsonView::Text(self.source),
        ).with("title"@, JsonView::Text(self.title)).with("url"@, JsonView::Text(self.url))
    }

    /// The object that keeps the paper: one for each identity in each source.
    pub open spec fn object(self) -> Seq<char> {
        "paper-"@ + digested(vstd::utf8::encode_utf8(self.source + ":"@ + self.id)) + ".json.gz"@
    }
}

impl Paper {
    pub fn json(&self) -> (res: Json)
        ensures
            res@ == self@.json(),
    {
        Json::object().with("abstract_text", Json::string(self.abstract_text.as_str())).with(
            "id",
            Json::string(self.id.as_str()),
        ).with("published", Json::string(self.published.as_str())).with(
            "source",
            Json::string(self.source.as_str()),
        ).with("title", Json::string(self.title.as_str())).with(
            "url",
            Json::string(self.url.as_str()),
        )
    }

    /// The object that keeps the paper.
    pub fn object(&self) -> (res: String)
        ensures
            res@ == self@.object(),
    {
        let mut key = self.source.clone();
        key.append(":");
        key.append(self.id.as_str());
        let mut out = "paper-".to_owned();
        out.append(digest_text(key.as_str()).as_str());
        out.append(".json.gz");
        out
    }
}

// ---------------------------------------------------------------------------
// Saving

/// Where the saving of a paper stands.
#[derive(Debug)]
pub enum SaveStage {
    LookingUp { paper: Paper },
    Encoding { name: String },
    Putting,
    Finished,
}

pub enum SaveStageView {
    LookingUp { paper: PaperView },
    Encoding { name: Seq<char> },
    Putting,
    Finished,
}

impl View for SaveStage {
    type V = SaveStageView;

    open spec fn view(&self) -> SaveStageView {
        match self {
            SaveStage::LookingUp { paper } => SaveStageView::LookingUp { paper: paper@ },
            SaveStage::Encoding { name } => SaveStageView::Encoding { name: name@ },
            SaveStage::Putting => SaveStageView::Putting,
            SaveStage::Finished => SaveStageView::Finished,
        }
    }
}

/// What the saving of a paper needs next.
#[derive(Debug)]
pub enum SaveNeed {
    /// Report whether this object exists.
    LookUp(String),
    /// Write the paper as a document.
    Encode { paper: Paper },
    /// Put these bytes in the store.
    Put { name: String, bytes: Vec<u8> },
    /// Nothing more: whether the paper was new.
    Finish(Result<bool, Failure>),
}

pub enum SaveNeedView {
    LookUp(Seq<char>),
    Encode { paper: PaperView },
    Put { name: Seq<char>, bytes: Seq<u8> },
    Finish(Result<bool, FailureView>),
}

impl View for SaveNeed {
    type V = SaveNeedView;

    open spec fn view(&self) -> SaveNeedView {
        match self {
            SaveNeed::LookUp(x) => SaveNeedView::LookUp(x@),
            SaveNeed::Encode { paper } => SaveNeedView::Encode { paper: paper@ },
            SaveNeed::Put { name, bytes } => SaveNeedView::Put { name: name@, bytes: bytes@ },
            SaveNeed::Finish(x) => SaveNeedView::Finish(told(*x)),
        }
    }
}

/// What came of it.
#[derive(Debug)]
pub enum SaveEvent {
    Known(bool),
    Encoded(Vec<u8>),
    /// Whether the object was new.
    Written(bool),
    Failed(Failure),
}

pub enum SaveEventView {
    Known(bool),
    Encoded(Seq<u8>),
    Written(bool),
    Failed(FailureView),
}

impl View for SaveEvent {
    type V = SaveEventView;

    open spec fn view(&self) -> SaveEventView {
        match self {
            SaveEvent::Known(x) => SaveEventView::Known(*x),
            SaveEvent::Encoded(x) => SaveEventView::Encoded(x@),
            SaveEvent::Written(x) => SaveEventView::Written(*x),
            SaveEvent::Failed(x) => SaveEventView::Failed(x@),
        }
    }
}

/// Where the saving of a paper stands, and what it needs next.
pub struct SaveTurn {
    pub stage: SaveStageView,
    pub need: SaveNeedView,
}

pub open spec fn save_ends(res: Result<bool, FailureView>) -> SaveTurn {
    SaveTurn { stage: SaveStageView::Finished, need: SaveNeedView::Finish(res) }
}

/// How the saving of a paper begins.
pub open spec fn save_begins(paper: PaperView) -> SaveTurn {
    SaveTurn {
        stage: SaveStageView::LookingUp { paper },
        need: SaveNeedView::LookUp(paper.object()),
    }
}

/// How the saving of a paper goes on after `event`: a paper that is there is left alone, another is
/// kept as a compressed document.
pub open spec fn save_step(stage: SaveStageView, event: SaveEventView) -> SaveTurn {
    match (stage, event) {
        (SaveStageView::LookingUp { paper }, SaveEventView::Known(known)) => if known {
            save_ends(Ok(false))
        } else {
            SaveTurn {
                stage: SaveStageView::Encoding { name: paper.object() },
                need: SaveNeedView::Encode { paper },
            }
        },
        (SaveStageView::Encoding { name }, SaveEventView::Encoded(bytes)) => match packed(bytes) {
            Err(error) => save_ends(Err(FailureView::Refused(error))),
            Ok(bytes) => SaveTurn {
                stage: SaveStageView::Putting,
                need: SaveNeedView::Put { name, bytes },
            },
        },
        (SaveStageView::Putting, SaveEventView::Written(fresh)) => save_ends(Ok(fresh)),
        (_, SaveEventView::Failed(failure)) => save_ends(Err(failure)),
        _ => save_ends(Err(FailureView::Refused(ErrorView::Unexpected))),
    }
}

/// The saving of a paper under way.
#[derive(Debug)]
pub struct Save {
    stage: SaveStage,
}

impl Save {
    pub closed spec fn stage(&self) -> SaveStageView {
        self.stage@
    }

    fn at(stage: SaveStage, need: SaveNeed) -> (res: (Save, SaveNeed))
        ensures
            res.0.stage() == stage@,
            res.1 == need,
    {
        (Save { stage }, need)
    }

    fn end(res: Result<bool, Failure>) -> (out: (Save, SaveNeed))
        ensures
            (SaveTurn { stage: out.0.stage(), need: out.1@ }) == save_ends(told(res)),
    {
        Save::at(SaveStage::Finished, SaveNeed::Finish(res))
    }

    /// Goes on with the saving of a paper after `event`.
    pub fn next(self, event: SaveEvent) -> (res: (Save, SaveNeed))
        ensures
            (SaveTurn { stage: res.0.stage(), need: res.1@ }) == save_step(self.stage(), event@),
    {
        match (self.stage, event) {
            (SaveStage::LookingUp { paper }, SaveEvent::Known(known)) => if known {
                Save::end(Ok(false))
            } else {
                Save::at(
                    SaveStage::Encoding { name: paper.object() },
                    SaveNeed::Encode { paper },
                )
            },
            (SaveStage::Encoding { name }, SaveEvent::Encoded(bytes)) => match compress(
                bytes.as_slice(),
            ) {
                Err(error) => Save::end(Err(Failure::Refused(error))),
                Ok(bytes) => Save::at(SaveStage::Putting, SaveNeed::Put { name, bytes }),
            },
            (SaveStage::Putting, SaveEvent::Written(fresh)) => Save::end(Ok(fresh)),
            (_, SaveEvent::Failed(failure)) => Save::end(Err(failure)),
            _ => Save::end(Err(Failure::Refused(Error::Unexpected))),
        }
    }
}

/// Begins to save a paper, unless it is there.
pub fn save(paper: Paper) -> (res: (Save, SaveNeed))
    ensures
        (SaveTurn { stage: res.0.stage(), need: res.1@ }) == save_begins(paper@),
{
    let name = paper.object();
    Save::at(SaveStage::LookingUp { paper }, SaveNeed::LookUp(name))
}

/// A store that does what it is asked: objects by their names, where `encoded` is the document of
/// the paper. An object that is there is never replaced.
pub open spec fn store_answers(
    objects: Map<Seq<char>, Seq<u8>>,
    encoded: Seq<u8>,
    need: SaveNeedView,
) -> (Map<Seq<char>, Seq<u8>>, SaveEventView) {
    match need {
        SaveNeedView::LookUp(name) => (objects, SaveEventView::Known(objects.contains_key(name))),
        SaveNeedView::Encode { .. } => (objects, SaveEventView::Encoded(encoded)),
        SaveNeedView::Put { name, bytes } => if objects.contains_key(name) {
            (objects, SaveEventView::Written(false))
        } else {
            (objects.insert(name, bytes), SaveEventView::Written(true))
        },
        SaveNeedView::Finish(_) => (
            objects,
            SaveEventView::Failed(FailureView::Refused(ErrorView::Unexpected)),
        ),
    }
}

/// The store and the result after a paper was saved in `steps` steps at most.
pub open spec fn saved_in(
    objects: Map<Seq<char>, Seq<u8>>,
    encoded: Seq<u8>,
    turn: SaveTurn,
    steps: nat,
) -> (Map<Seq<char>, Seq<u8>>, Option<Result<bool, FailureView>>)
    decreases steps,
{
    match turn.need {
        SaveNeedView::Finish(res) => (objects, Some(res)),
        need => if steps == 0 {
            (objects, None)
        } else {
            let answer = store_answers(objects, encoded, need);
            saved_in(answer.0, encoded, save_step(turn.stage, answer.1), (steps - 1) as nat)
        },
    }
}

/// A paper is saved once, and whole: the first time under its name as a compressed document, if the
/// encoder gives one; from then on, whatever document is offered under the same identity, the store
/// stays as it is and the paper is not new.
pub proof fn law_saved_once(
    objects: Map<Seq<char>, Seq<u8>>,
    encoded: Seq<u8>,
    paper: PaperView,
    later: Seq<u8>,
    again: PaperView,
)
    requires
        again.source == paper.source,
        again.id == paper.id,
    ensures
        ({
            let first = saved_in(objects, encoded, save_begins(paper), 3);
            let second = saved_in(first.0, later, save_begins(again), 3);
            &&& objects.contains_key(paper.object()) ==> first == (
                objects,
                Some(Ok::<bool, FailureView>(false)),
            )
            &&& !objects.contains_key(paper.object()) ==> first == (match packed(encoded) {
                Ok(bytes) => (
                    objects.insert(paper.object(), bytes),
                    Some(Ok::<bool, FailureView>(true)),
                ),
                Err(error) => (objects, Some(Err(FailureView::Refused(error)))),
            })
            &&& first.1->0 is Ok ==> second == (first.0, Some(Ok::<bool, FailureView>(false)))
        }),
{
    reveal_with_fuel(saved_in, 5);
}

/// The document of a paper tells what it is, each under its own name.
pub proof fn law_paper_document(paper: PaperView)
    ensures
        paper.json().get("source"@) == Some(JsonView::Text(paper.source)),
        paper.json().get("id"@) == Some(JsonView::Text(paper.id)),
        paper.json().get("title"@) == Some(JsonView::Text(paper.title)),
        paper.json().get("abstract_text"@) == Some(JsonView::Text(paper.abstract_text)),
        paper.json().get("url"@) == Some(JsonView::Text(paper.url)),
        paper.json().get("published"@) == Some(JsonView::Text(paper.published)),
{
    lemma_documents();
    lemma_paper_names();
}

/// A paper is kept under the digest of its source and its identity there, and only under that.
pub proof fn law_paper_object(paper: PaperView)
    ensures
        paper.object() == "paper-"@ + digested(
            vstd::utf8::encode_utf8(paper.source + ":"@ + paper.id),
        ) + ".json.gz"@,
        save_begins(paper).need == SaveNeedView::LookUp(paper.object()),
        save_step(save_begins(paper).stage, SaveEventView::Known(false)).need == (
        SaveNeedView::Encode { paper }),
{
}

proof fn lemma_paper_names()
    ensures
        "abstract_text"@ != "id"@,
        "abstract_text"@ != "published"@,
        "abstract_text"@ != "source"@,
        "abstract_text"@ != "title"@,
        "abstract_text"@ != "url"@,
        "id"@ != "published"@,
        "id"@ != "source"@,
        "id"@ != "title"@,
        "id"@ != "url"@,
        "published"@ != "source"@,
        "published"@ != "title"@,
        "published"@ != "url"@,
        "source"@ != "title"@,
        "source"@ != "url"@,
        "title"@ != "url"@,
{
    reveal_strlit("abstract_text");
    reveal_strlit("id");
    reveal_strlit("published");
    reveal_strlit("source");
    reveal_strlit("title");
    reveal_strlit("url");
    assert("abstract_text"@.len() == 13);
    assert("id"@.len() == 2);
    assert("published"@.len() == 9);
    assert("source"@.len() == 6);
    assert("title"@.len() == 5);
    assert("url"@.len() == 3);
}

/// What fails while a paper is saved is what comes of it.
pub proof fn law_failed_save(stage: SaveStageView, failure: FailureView)
    ensures
        save_step(stage, SaveEventView::Failed(failure)).need == SaveNeedView::Finish(Err(failure)),
{
}

} // verus!
