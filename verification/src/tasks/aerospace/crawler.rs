//! Searching arXiv and Crossref.
//!
//! Metadata and available abstracts, not paywalled full text; the PDF of an arXiv paper where the
//! settings ask for it.
use crate::base::config::Config;
use crate::base::limits::{digest_text, digested};
use crate::base::models::{first_in, first_of};
use crate::error::{Error, ErrorView};
use crate::failure::{told, Failure, FailureView};
use crate::json::{
    get_in, get_of, json_of, json_read, lent, parse, text_in, text_of, Json, JsonView,
};
use crate::tasks::aerospace::compress::{compress, gzipped, packed};
use crate::tasks::aerospace::storage::{paper_views, Paper, PaperView};
use crate::text::{
    begins, blank, byte_len, chars_of, contains, decimal, digit, first_at, is_blank, is_digit,
    is_letter, join, joined, law_replaced, letter, numeral, occurs, pairs, replace, replaced, same, size,
    split_once, split_words, stands_at, trim, trimmed, words,
};
use vstd::prelude::*;

verus! {

/// Where papers are searched.
#[derive(Debug, Clone, Copy, PartialEq, Eq, Structural)]
pub enum Archive {
    Arxiv,
    Crossref,
}

/// Where a search stands.
#[derive(Debug)]
pub enum CrawlStage {
    Searching { at: Archive },
    Saving { at: Archive, paper: Paper, rest: Vec<Paper> },
    LookingUp { at: Archive, name: String, id: String, rest: Vec<Paper> },
    Downloading { at: Archive, name: String, rest: Vec<Paper> },
    Keeping { at: Archive, rest: Vec<Paper> },
    Finished,
}

pub enum CrawlStageView {
    Searching { at: Archive },
    Saving { at: Archive, paper: PaperView, rest: Seq<PaperView> },
    LookingUp { at: Archive, name: Seq<char>, id: Seq<char>, rest: Seq<PaperView> },
    Downloading { at: Archive, name: Seq<char>, rest: Seq<PaperView> },
    Keeping { at: Archive, rest: Seq<PaperView> },
    Finished,
}

impl View for CrawlStage {
    type V = CrawlStageView;

    open spec fn view(&self) -> CrawlStageView {
        match self {
            CrawlStage::Searching { at } => CrawlStageView::Searching { at: *at },
            CrawlStage::Saving { at, paper, rest } => CrawlStageView::Saving {
                at: *at,
                paper: paper@,
                rest: paper_views(rest@),
            },
            CrawlStage::LookingUp { at, name, id, rest } => CrawlStageView::LookingUp {
                at: *at,
                name: name@,
                id: id@,
                rest: paper_views(rest@),
            },
            CrawlStage::Downloading { at, name, rest } => CrawlStageView::Downloading {
                at: *at,
                name: name@,
                rest: paper_views(rest@),
            },
            CrawlStage::Keeping { at, rest } => CrawlStageView::Keeping {
                at: *at,
                rest: paper_views(rest@),
            },
            CrawlStage::Finished => CrawlStageView::Finished,
        }
    }
}

/// What a search needs next.
#[derive(Debug)]
pub enum CrawlNeed {
    /// Wait for the pace, then ask this archive, by these parameters of the address.
    Search { at: Archive, url: String, params: Vec<(String, String)> },
    /// Save a paper, unless it is there.
    Save { paper: Paper },
    /// Report whether this object exists.
    LookUp(String),
    /// Wait for the pace, then download this.
    Download { url: String },
    /// Put these bytes in the store.
    Keep { name: String, bytes: Vec<u8> },
    /// Nothing more: how many papers were new.
    Finish(Result<usize, Failure>),
}

pub enum CrawlNeedView {
    Search { at: Archive, url: Seq<char>, params: Seq<(Seq<char>, Seq<char>)> },
    Save { paper: PaperView },
    LookUp(Seq<char>),
    Download { url: Seq<char> },
    Keep { name: Seq<char>, bytes: Seq<u8> },
    Finish(Result<usize, FailureView>),
}

impl View for CrawlNeed {
    type V = CrawlNeedView;

    open spec fn view(&self) -> CrawlNeedView {
        match self {
            CrawlNeed::Search { at, url, params } => CrawlNeedView::Search {
                at: *at,
                url: url@,
                params: pairs(params@),
            },
            CrawlNeed::Save { paper } => CrawlNeedView::Save { paper: paper@ },
            CrawlNeed::LookUp(x) => CrawlNeedView::LookUp(x@),
            CrawlNeed::Download { url } => CrawlNeedView::Download { url: url@ },
            CrawlNeed::Keep { name, bytes } => CrawlNeedView::Keep { name: name@, bytes: bytes@ },
            CrawlNeed::Finish(x) => CrawlNeedView::Finish(told(*x)),
        }
    }
}

/// What came of it.
#[derive(Debug)]
pub enum CrawlEvent {
    Found { papers: Vec<Paper> },
    /// The archive gave nothing that could be read.
    Unavailable,
    /// Whether the paper was new.
    Saved(bool),
    Known(bool),
    Bytes(Vec<u8>),
    Done,
    Failed(Failure),
}

pub enum CrawlEventView {
    Found { papers: Seq<PaperView> },
    Unavailable,
    Saved(bool),
    Known(bool),
    Bytes(Seq<u8>),
    Done,
    Failed(FailureView),
}

impl View for CrawlEvent {
    type V = CrawlEventView;

    open spec fn view(&self) -> CrawlEventView {
        match self {
            CrawlEvent::Found { papers } => CrawlEventView::Found { papers: paper_views(papers@) },
            CrawlEvent::Unavailable => CrawlEventView::Unavailable,
            CrawlEvent::Saved(x) => CrawlEventView::Saved(*x),
            CrawlEvent::Known(x) => CrawlEventView::Known(*x),
            CrawlEvent::Bytes(x) => CrawlEventView::Bytes(x@),
            CrawlEvent::Done => CrawlEventView::Done,
            CrawlEvent::Failed(x) => CrawlEventView::Failed(x@),
        }
    }
}

// ---------------------------------------------------------------------------
// Replies

/// An entry of arXiv's feed.
#[derive(Debug)]
pub struct Entry {
    pub id: String,
    pub title: String,
    pub summary: String,
    pub published: String,
}

/// The paper of an entry: its title on one line, and its address encrypted.
pub open spec fn arxiv_paper(entry: Entry) -> PaperView {
    PaperView {
        source: "arxiv"@,
        id: entry.id@,
        url: replaced(entry.id@, "http://"@, "https://"@),
        title: joined(words(entry.title@), " "@),
        abstract_text: trimmed(entry.summary@),
        published: entry.published@,
    }
}

pub open spec fn arxiv_papers(entries: Seq<Entry>) -> Seq<PaperView> {
    Seq::new(entries.len(), |i: int| arxiv_paper(entries[i]))
}

/// The papers of arXiv's feed.
pub fn parse_arxiv(entries: &Vec<Entry>) -> (res: Vec<Paper>)
    ensures
        paper_views(res@) == arxiv_papers(entries@),
{
    let mut out: Vec<Paper> = Vec::new();
    let mut i: usize = 0;
    while i < entries.len()
        invariant
            i <= entries.len(),
            out.len() == i,
            forall|j: int| 0 <= j < i ==> (#[trigger] out@[j])@ == arxiv_paper(entries@[j]),
        decreases entries.len() - i,
    {
        let entry = &entries[i];
        proof {
            reveal_strlit("http://");
        }
        let paper = Paper {
            source: "arxiv".to_owned(),
            id: entry.id.clone(),
            url: replace(entry.id.as_str(), "http://", "https://"),
            title: join(&split_words(entry.title.as_str()), " "),
            abstract_text: trim(entry.summary.as_str()),
            published: entry.published.clone(),
        };
        out.push(paper);
        i = i + 1;
    }
    assert(paper_views(out@) =~= arxiv_papers(entries@));
    out
}

/// The text, or nothing at all.
pub open spec fn text_else(value: Option<JsonView>) -> Seq<char> {
    match text_in(value) {
        Some(text) => text,
        None => ""@,
    }
}

/// The paper of an item of Crossref, which must have an identity and a title.
pub open spec fn crossref_paper(item: JsonView) -> Option<PaperView> {
    match (text_in(item.get("DOI"@)), text_in(first_in(item.get("title"@)))) {
        (Some(id), Some(title)) => Some(
            PaperView {
                source: "crossref"@,
                url: "https://doi.org/"@ + id,
                id,
                title,
                abstract_text: text_else(item.get("abstract"@)),
                published: text_else(get_in(item.get("created"@), "date-time"@)),
            },
        ),
        _ => None,
    }
}

pub open spec fn crossref_papers(items: Seq<JsonView>) -> Seq<PaperView>
    decreases items.len(),
{
    if items.len() == 0 {
        Seq::empty()
    } else {
        let before = crossref_papers(items.drop_last());
        match crossref_paper(items.last()) {
            Some(paper) => before.push(paper),
            None => before,
        }
    }
}

/// The papers that Crossref's reply holds.
pub open spec fn crossref_reply(body: Result<JsonView, Seq<char>>) -> Result<
    Seq<PaperView>,
    ErrorView,
> {
    match body {
        Err(words) => Err(ErrorView::Outside(words)),
        Ok(body) => match get_in(body.get("message"@), "items"@) {
            Some(JsonView::List(items)) => Ok(crossref_papers(items)),
            _ => Err(ErrorView::CrossrefShape),
        },
    }
}

fn text_or_empty(value: Option<&Json>) -> (res: String)
    ensures
        res@ == text_else(lent(value)),
{
    match text_of(value) {
        Some(text) => text.clone(),
        None => "".to_owned(),
    }
}

fn paper_of_item(item: &Json) -> (res: Option<Paper>)
    ensures
        (match res {
            Some(paper) => Some(paper@),
            None => None,
        }) == crossref_paper(item@),
{
    match (text_of(item.get("DOI")), text_of(first_of(item.get("title")))) {
        (Some(id), Some(title)) => {
            let mut url = "https://doi.org/".to_owned();
            url.append(id.as_str());
            Some(
                Paper {
                    source: "crossref".to_owned(),
                    url,
                    id: id.clone(),
                    title: title.clone(),
                    abstract_text: text_or_empty(item.get("abstract")),
                    published: text_or_empty(get_of(item.get("created"), "date-time")),
                },
            )
        },
        _ => None,
    }
}

fn papers_of_items(items: &Vec<Json>, Ghost(all): Ghost<Seq<JsonView>>) -> (res: Vec<Paper>)
    requires
        all.len() == items.len(),
        forall|i: int| 0 <= i < all.len() ==> #[trigger] all[i] == items@[i]@,
    ensures
        paper_views(res@) == crossref_papers(all),
{
    let mut out: Vec<Paper> = Vec::new();
    let mut i: usize = 0;
    assert(paper_views(out@) =~= crossref_papers(all.take(0)));
    while i < items.len()
        invariant
            i <= items.len(),
            all.len() == items.len(),
            forall|j: int| 0 <= j < all.len() ==> #[trigger] all[j] == items@[j]@,
            paper_views(out@) == crossref_papers(all.take(i as int)),
        decreases items.len() - i,
    {
        proof {
            assert(all[i as int] == items@[i as int]@);
            assert(all.take(i + 1).drop_last() =~= all.take(i as int));
        }
        if let Some(paper) = paper_of_item(&items[i]) {
            let ghost before = out@;
            let ghost view = paper@;
            out.push(paper);
            assert(paper_views(out@) =~= paper_views(before).push(view));
        }
        i = i + 1;
    }
    assert(all.take(i as int) =~= all);
    out
}

/// The papers that Crossref's reply holds, where it was a document.
pub fn crossref_in(body: &Result<Json, String>) -> (res: Result<Vec<Paper>, Error>)
    ensures
        (match res {
            Ok(papers) => Ok(paper_views(papers@)),
            Err(error) => Err(error@),
        }) == crossref_reply(json_read(*body)),
{
    match body {
        Err(words) => Err(Error::Outside(words.clone())),
        Ok(body) => match get_of(body.get("message"), "items") {
            Some(json) => match json {
                Json::List(items) => {
                    let ghost all = json@->List_0;
                    Ok(papers_of_items(items, Ghost(all)))
                },
                _ => Err(Error::CrossrefShape),
            },
            None => Err(Error::CrossrefShape),
        },
    }
}

/// The papers in the bytes of Crossref's reply.
pub fn parse_crossref(bytes: &[u8]) -> (res: Result<Vec<Paper>, Error>)
    ensures
        (match res {
            Ok(papers) => Ok(paper_views(papers@)),
            Err(error) => Err(error@),
        }) == crossref_reply(json_of(bytes@)),
{
    crossref_in(&parse(bytes))
}

// ---------------------------------------------------------------------------
// Searches

/// What an archive is asked: the query is grouped, so that its own operators cannot bypass the
/// constraint to aerospace.
pub open spec fn wording(at: Archive, query: Seq<char>) -> Seq<char> {
    match at {
        Archive::Arxiv =>
        "(all:aerospace OR all:spacecraft OR all:aerodynamics OR all:propulsion) AND all:\""@
            + replaced(replaced(query, "\""@, " "@), "\\"@, " "@) + "\""@,
        Archive::Crossref => "aerospace "@ + query,
    }
}

fn word(at: Archive, query: &str) -> (res: String)
    ensures
        res@ == wording(at, query@),
{
    match at {
        Archive::Arxiv => {
            proof {
                reveal_strlit("\"");
                reveal_strlit("\\");
            }
            let plain = replace(replace(query, "\"", " ").as_str(), "\\", " ");
            let mut out =
                "(all:aerospace OR all:spacecraft OR all:aerodynamics OR all:propulsion) AND all:\"".to_owned();
            out.append(plain.as_str());
            out.append("\"");
            out
        },
        Archive::Crossref => {
            let mut out = "aerospace ".to_owned();
            out.append(query);
            out
        },
    }
}

/// Where an archive is asked.
pub open spec fn archive_address(at: Archive) -> Seq<char> {
    match at {
        Archive::Arxiv => "https://export.arxiv.org/api/query"@,
        Archive::Crossref => "https://api.crossref.org/works"@,
    }
}

/// What an archive is asked: for papers on the query, `rows` of them.
pub open spec fn archive_params(at: Archive, query: Seq<char>, rows: nat) -> Seq<
    (Seq<char>, Seq<char>),
> {
    match at {
        Archive::Arxiv => seq![
            ("search_query"@, wording(at, query)),
            ("max_results"@, numeral(rows)),
            ("sortBy"@, "submittedDate"@),
            ("sortOrder"@, "descending"@),
        ],
        Archive::Crossref => seq![
            ("query"@, wording(at, query)),
            ("rows"@, numeral(rows)),
            ("filter"@, "type:journal-article"@),
        ],
    }
}

fn address(at: Archive) -> (res: String)
    ensures
        res@ == archive_address(at),
{
    match at {
        Archive::Arxiv => "https://export.arxiv.org/api/query".to_owned(),
        Archive::Crossref => "https://api.crossref.org/works".to_owned(),
    }
}

fn params(at: Archive, query: &str, rows: usize) -> (res: Vec<(String, String)>)
    ensures
        pairs(res@) == archive_params(at, query@, rows as nat),
{
    let mut out: Vec<(String, String)> = Vec::new();
    let asked = word(at, query);
    let count = decimal(rows as u64);
    match at {
        Archive::Arxiv => {
            out.push(("search_query".to_owned(), asked));
            out.push(("max_results".to_owned(), count));
            out.push(("sortBy".to_owned(), "submittedDate".to_owned()));
            out.push(("sortOrder".to_owned(), "descending".to_owned()));
        },
        Archive::Crossref => {
            out.push(("query".to_owned(), asked));
            out.push(("rows".to_owned(), count));
            out.push(("filter".to_owned(), "type:journal-article".to_owned()));
        },
    }
    assert(pairs(out@) =~= archive_params(at, query@, rows as nat));
    out
}

/// A character of an arXiv identifier.
pub open spec fn id_char(c: char) -> bool {
    letter(c) || digit(c) || c == '-' || c == '.' || c == '/'
}

/// An arXiv identifier that can stand in an address.
pub open spec fn pdf_id(id: Seq<char>) -> bool {
    &&& id.len() > 0
    &&& !occurs(id, ".."@)
    &&& forall|i: int| 0 <= i < id.len() ==> id_char(#[trigger] id[i])
}

fn is_pdf_id(id: &str) -> (res: bool)
    ensures
        res == pdf_id(id@),
{
    let v = chars_of(id);
    let mut i: usize = 0;
    while i < v.len()
        invariant
            v@ == id@,
            i <= v.len(),
            forall|j: int| 0 <= j < i ==> id_char(#[trigger] v@[j]),
        decreases v.len() - i,
    {
        let c = v[i];
        if !(is_letter(c) || is_digit(c) || c == '-' || c == '.' || c == '/') {
            return false;
        }
        i = i + 1;
    }
    v.len() > 0 && !contains(id, "..")
}

/// The object that keeps the PDF of a paper.
pub open spec fn pdf_object(id: Seq<char>) -> Seq<char> {
    "pdf-"@ + digested(vstd::utf8::encode_utf8(id)) + ".pdf.gz"@
}

/// Where the PDF of an arXiv paper is.
pub open spec fn pdf_address(id: Seq<char>) -> Result<Seq<char>, ErrorView> {
    if !occurs(id, "/abs/"@) {
        Err(ErrorView::ArxivId)
    } else {
        let last = id.skip(first_at(id, "/abs/"@) + 5);
        if !pdf_id(last) {
            Err(ErrorView::ArxivPdfId)
        } else {
            Ok("https://arxiv.org/pdf/"@ + last)
        }
    }
}

fn pdf_url(id: &str) -> (res: Result<String, Error>)
    ensures
        (match res {
            Ok(url) => Ok(url@),
            Err(error) => Err(error@),
        }) == pdf_address(id@),
{
    proof {
        reveal_strlit("/abs/");
    }
    match split_once(id, "/abs/") {
        None => Err(Error::ArxivId),
        Some((_, last)) => if !is_pdf_id(last.as_str()) {
            Err(Error::ArxivPdfId)
        } else {
            let mut out = "https://arxiv.org/pdf/".to_owned();
            out.append(last.as_str());
            Ok(out)
        },
    }
}

/// The bytes begin as a PDF does.
pub open spec fn is_pdf(bytes: Seq<u8>) -> bool {
    bytes.len() >= 5 && bytes[0] == 37 && bytes[1] == 80 && bytes[2] == 68 && bytes[3] == 70
        && bytes[4] == 45
}

/// The first `max` papers.
pub open spec fn at_most(papers: Seq<PaperView>, max: nat) -> Seq<PaperView> {
    if papers.len() <= max {
        papers
    } else {
        papers.take(max as int)
    }
}

/// The counts of a search: papers that were new, and archives that answered.
pub struct Count {
    pub saved: usize,
    pub succeeded: usize,
}

/// Where a search stands, its counts, and what it needs next.
pub struct CrawlTurn {
    pub stage: CrawlStageView,
    pub count: Count,
    pub need: CrawlNeedView,
}

pub open spec fn crawl_ends(count: Count, res: Result<usize, FailureView>) -> CrawlTurn {
    CrawlTurn { stage: CrawlStageView::Finished, count, need: CrawlNeedView::Finish(res) }
}

pub open spec fn crawl_refused(count: Count, error: ErrorView) -> CrawlTurn {
    crawl_ends(count, Err(FailureView::Refused(error)))
}

pub open spec fn crawl_searches(
    at: Archive,
    query: Seq<char>,
    max_results: usize,
    count: Count,
) -> CrawlTurn {
    CrawlTurn {
        stage: CrawlStageView::Searching { at },
        count,
        need: CrawlNeedView::Search {
            at,
            url: archive_address(at),
            params: archive_params(at, query, max_results as nat),
        },
    }
}

/// The next archive, or the end: a search succeeds if one of the archives answered.
pub open spec fn crawl_next(
    at: Archive,
    query: Seq<char>,
    max_results: usize,
    count: Count,
) -> CrawlTurn {
    match at {
        Archive::Arxiv => crawl_searches(Archive::Crossref, query, max_results, count),
        Archive::Crossref => if count.succeeded > 0 {
            crawl_ends(count, Ok(count.saved))
        } else {
            crawl_refused(count, ErrorView::SourcesFailed)
        },
    }
}

pub open spec fn crawl_saves(
    at: Archive,
    query: Seq<char>,
    max_results: usize,
    count: Count,
    rest: Seq<PaperView>,
) -> CrawlTurn {
    if rest.len() == 0 {
        crawl_next(at, query, max_results, count)
    } else {
        CrawlTurn {
            stage: CrawlStageView::Saving { at, paper: rest[0], rest: rest.drop_first() },
            count,
            need: CrawlNeedView::Save { paper: rest[0] },
        }
    }
}

/// A count that stops at the largest number.
pub open spec fn one_more(n: usize) -> usize {
    if n < usize::MAX {
        (n + 1) as usize
    } else {
        n
    }
}

/// How a search begins.
pub open spec fn crawl_begins(query: Seq<char>, max_results: usize) -> CrawlTurn {
    let count = Count { saved: 0, succeeded: 0 };
    if blank(query) || size(query) > 512 {
        crawl_refused(count, ErrorView::ResearchQueryLength)
    } else {
        crawl_searches(Archive::Arxiv, query, max_results, count)
    }
}

/// How a search goes on after `event`: each archive is asked in turn, an archive that does not
/// answer is passed over, and a paper that cannot be kept ends the search.
pub open spec fn crawl_step(
    query: Seq<char>,
    max_results: usize,
    download_pdfs: bool,
    stage: CrawlStageView,
    count: Count,
    event: CrawlEventView,
) -> CrawlTurn {
    match (stage, event) {
        (CrawlStageView::Searching { at }, CrawlEventView::Found { papers }) => crawl_saves(
            at,
            query,
            max_results,
            Count { succeeded: one_more(count.succeeded), ..count },
            at_most(papers, max_results as nat),
        ),
        (CrawlStageView::Searching { at }, CrawlEventView::Unavailable) => crawl_next(
            at,
            query,
            max_results,
            count,
        ),
        (CrawlStageView::Saving { at, paper, rest }, CrawlEventView::Saved(fresh)) => {
            let now = if fresh {
                Count { saved: one_more(count.saved), ..count }
            } else {
                count
            };
            if download_pdfs && paper.source == "arxiv"@ {
                CrawlTurn {
                    stage: CrawlStageView::LookingUp {
                        at,
                        name: pdf_object(paper.id),
                        id: paper.id,
                        rest,
                    },
                    count: now,
                    need: CrawlNeedView::LookUp(pdf_object(paper.id)),
                }
            } else {
                crawl_saves(at, query, max_results, now, rest)
            }
        },
        (CrawlStageView::LookingUp { at, name, id, rest }, CrawlEventView::Known(known)) => if known {
            crawl_saves(at, query, max_results, count, rest)
        } else {
            match pdf_address(id) {
                Err(error) => crawl_refused(count, error),
                Ok(url) => CrawlTurn {
                    stage: CrawlStageView::Downloading { at, name, rest },
                    count,
                    need: CrawlNeedView::Download { url },
                },
            }
        },
        (CrawlStageView::Downloading { at, name, rest }, CrawlEventView::Bytes(bytes)) => if is_pdf(
            bytes,
        ) {
            match packed(bytes) {
                Err(error) => crawl_refused(count, error),
                Ok(bytes) => CrawlTurn {
                    stage: CrawlStageView::Keeping { at, rest },
                    count,
                    need: CrawlNeedView::Keep { name, bytes },
                },
            }
        } else {
            crawl_refused(count, ErrorView::NotPdf)
        },
        (CrawlStageView::Keeping { at, rest }, CrawlEventView::Done) => crawl_saves(
            at,
            query,
            max_results,
            count,
            rest,
        ),
        (_, CrawlEventView::Failed(failure)) => crawl_ends(count, Err(failure)),
        _ => crawl_refused(count, ErrorView::Unexpected),
    }
}

/// A search under way.
#[derive(Debug)]
pub struct Crawl {
    query: String,
    max_results: usize,
    download_pdfs: bool,
    saved: usize,
    succeeded: usize,
    stage: CrawlStage,
}

fn crawl_end(res: Result<usize, Failure>) -> (out: (CrawlStage, CrawlNeed))
    ensures
        out.0@ == CrawlStageView::Finished,
        out.1@ == CrawlNeedView::Finish(told(res)),
{
    (CrawlStage::Finished, CrawlNeed::Finish(res))
}

fn crawl_refuse(error: Error) -> (out: (CrawlStage, CrawlNeed))
    ensures
        out.0@ == CrawlStageView::Finished,
        out.1@ == CrawlNeedView::Finish(Err(FailureView::Refused(error@))),
{
    crawl_end(Err(Failure::Refused(error)))
}

fn cap(papers: Vec<Paper>, max: usize) -> (res: Vec<Paper>)
    ensures
        paper_views(res@) == at_most(paper_views(papers@), max as nat),
{
    let mut papers = papers;
    if papers.len() > max {
        let ghost before = papers@;
        papers.truncate(max);
        assert(paper_views(papers@) =~= paper_views(before).take(max as int));
    }
    papers
}

fn begins_pdf(bytes: &Vec<u8>) -> (res: bool)
    ensures
        res == is_pdf(bytes@),
{
    bytes.len() >= 5 && bytes[0] == 37 && bytes[1] == 80 && bytes[2] == 68 && bytes[3] == 70
        && bytes[4] == 45
}

impl Crawl {
    pub closed spec fn stage(&self) -> CrawlStageView {
        self.stage@
    }

    pub closed spec fn count(&self) -> Count {
        Count { saved: self.saved, succeeded: self.succeeded }
    }

    pub closed spec fn query(&self) -> Seq<char> {
        self.query@
    }

    pub closed spec fn max_results(&self) -> usize {
        self.max_results
    }

    pub closed spec fn download_pdfs(&self) -> bool {
        self.download_pdfs
    }

    fn search(&self, at: Archive) -> (res: (CrawlStage, CrawlNeed))
        ensures
            (CrawlTurn { stage: res.0@, count: self.count(), need: res.1@ }) == crawl_searches(
                at,
                self.query(),
                self.max_results(),
                self.count(),
            ),
    {
        (
            CrawlStage::Searching { at },
            CrawlNeed::Search {
                at,
                url: address(at),
                params: params(at, self.query.as_str(), self.max_results),
            },
        )
    }

    fn following(&self, at: Archive) -> (res: (CrawlStage, CrawlNeed))
        ensures
            (CrawlTurn { stage: res.0@, count: self.count(), need: res.1@ }) == crawl_next(
                at,
                self.query(),
                self.max_results(),
                self.count(),
            ),
    {
        match at {
            Archive::Arxiv => self.search(Archive::Crossref),
            Archive::Crossref => if self.succeeded > 0 {
                crawl_end(Ok(self.saved))
            } else {
                crawl_refuse(Error::SourcesFailed)
            },
        }
    }

    fn save(&self, at: Archive, rest: Vec<Paper>) -> (res: (CrawlStage, CrawlNeed))
        ensures
            (CrawlTurn { stage: res.0@, count: self.count(), need: res.1@ }) == crawl_saves(
                at,
                self.query(),
                self.max_results(),
                self.count(),
                paper_views(rest@),
            ),
    {
        let mut rest = rest;
        if rest.len() == 0 {
            return self.following(at);
        }
        let ghost before = rest@;
        let paper = rest.remove(0);
        assert(paper_views(rest@) =~= paper_views(before).drop_first());
        assert(paper_views(before)[0] == paper@);
        (CrawlStage::Saving { at, paper: paper.clone(), rest }, CrawlNeed::Save { paper })
    }

    fn step(&mut self, stage: CrawlStage, event: CrawlEvent) -> (res: (CrawlStage, CrawlNeed))
        ensures
            (CrawlTurn { stage: res.0@, count: final(self).count(), need: res.1@ }) == crawl_step(
                old(self).query(),
                old(self).max_results(),
                old(self).download_pdfs(),
                stage@,
                old(self).count(),
                event@,
            ),
            final(self).query() == old(self).query(),
            final(self).max_results() == old(self).max_results(),
            final(self).download_pdfs() == old(self).download_pdfs(),
    {
        match (stage, event) {
            (CrawlStage::Searching { at }, CrawlEvent::Found { papers }) => {
                self.succeeded = self.succeeded.saturating_add(1);
                let papers = cap(papers, self.max_results);
                self.save(at, papers)
            },
            (CrawlStage::Searching { at }, CrawlEvent::Unavailable) => self.following(at),
            (CrawlStage::Saving { at, paper, rest }, CrawlEvent::Saved(fresh)) => {
                if fresh {
                    self.saved = self.saved.saturating_add(1);
                }
                if self.download_pdfs && same(paper.source.as_str(), "arxiv") {
                    let mut name = "pdf-".to_owned();
                    name.append(digest_text(paper.id.as_str()).as_str());
                    name.append(".pdf.gz");
                    (
                        CrawlStage::LookingUp { at, name: name.clone(), id: paper.id, rest },
                        CrawlNeed::LookUp(name),
                    )
                } else {
                    self.save(at, rest)
                }
            },
            (CrawlStage::LookingUp { at, name, id, rest }, CrawlEvent::Known(known)) => if known {
                self.save(at, rest)
            } else {
                match pdf_url(id.as_str()) {
                    Err(error) => crawl_refuse(error),
                    Ok(url) => (
                        CrawlStage::Downloading { at, name, rest },
                        CrawlNeed::Download { url },
                    ),
                }
            },
            (CrawlStage::Downloading { at, name, rest }, CrawlEvent::Bytes(bytes)) => if begins_pdf(
                &bytes,
            ) {
                match compress(bytes.as_slice()) {
                    Err(error) => crawl_refuse(error),
                    Ok(bytes) => (
                        CrawlStage::Keeping { at, rest },
                        CrawlNeed::Keep { name, bytes },
                    ),
                }
            } else {
                crawl_refuse(Error::NotPdf)
            },
            (CrawlStage::Keeping { at, rest }, CrawlEvent::Done) => self.save(at, rest),
            (_, CrawlEvent::Failed(failure)) => crawl_end(Err(failure)),
            _ => crawl_refuse(Error::Unexpected),
        }
    }

    /// Goes on with a search after `event`.
    pub fn next(self, event: CrawlEvent) -> (res: (Crawl, CrawlNeed))
        ensures
            (CrawlTurn { stage: res.0.stage(), count: res.0.count(), need: res.1@ }) == crawl_step(
                self.query(),
                self.max_results(),
                self.download_pdfs(),
                self.stage(),
                self.count(),
                event@,
            ),
            res.0.query() == self.query(),
            res.0.max_results() == self.max_results(),
            res.0.download_pdfs() == self.download_pdfs(),
    {
        let stage = self.stage;
        let mut crawl = Crawl {
            query: self.query,
            max_results: self.max_results,
            download_pdfs: self.download_pdfs,
            saved: self.saved,
            succeeded: self.succeeded,
            stage: CrawlStage::Finished,
        };
        let (stage, need) = crawl.step(stage, event);
        crawl.stage = stage;
        (crawl, need)
    }
}

/// Begins a search of both archives.
pub fn crawl(config: &Config, query: String) -> (res: (Crawl, CrawlNeed))
    ensures
        (CrawlTurn { stage: res.0.stage(), count: res.0.count(), need: res.1@ }) == crawl_begins(
            query@,
            config.research.max_results,
        ),
        res.0.query() == query@,
        res.0.max_results() == config.research.max_results,
        res.0.download_pdfs() == config.research.download_pdfs,
{
    let bad = is_blank(query.as_str()) || byte_len(query.as_str()) > 512;
    let mut crawl = Crawl {
        query,
        max_results: config.research.max_results,
        download_pdfs: config.research.download_pdfs,
        saved: 0,
        succeeded: 0,
        stage: CrawlStage::Finished,
    };
    let (stage, need) = if bad {
        crawl_refuse(Error::ResearchQueryLength)
    } else {
        crawl.search(Archive::Arxiv)
    };
    crawl.stage = stage;
    (crawl, need)
}

/// How many papers are still to be saved.
pub open spec fn remaining(stage: CrawlStageView) -> nat {
    match stage {
        CrawlStageView::Saving { rest, .. } => rest.len() + 1,
        CrawlStageView::LookingUp { rest, .. } => rest.len(),
        CrawlStageView::Downloading { rest, .. } => rest.len(),
        CrawlStageView::Keeping { rest, .. } => rest.len(),
        _ => 0,
    }
}

/// A search is bounded: an archive gives no more papers than asked for, and each that is saved
/// leaves one less.
pub proof fn law_search_is_bounded(
    query: Seq<char>,
    max_results: usize,
    download_pdfs: bool,
    stage: CrawlStageView,
    count: Count,
    event: CrawlEventView,
)
    ensures
        ({
            let next = crawl_step(query, max_results, download_pdfs, stage, count, event).stage;
            &&& stage is Searching ==> remaining(next) <= max_results
            &&& stage is Saving ==> remaining(next) < remaining(stage)
            &&& stage !is Searching ==> remaining(next) <= remaining(stage)
        }),
{
}

/// Papers are downloaded from arXiv over an encrypted connection and from nowhere else, and only
/// what begins as a PDF is kept, compressed.
pub proof fn law_downloads(
    query: Seq<char>,
    max_results: usize,
    download_pdfs: bool,
    stage: CrawlStageView,
    count: Count,
    event: CrawlEventView,
)
    ensures
        ({
            let need = crawl_step(query, max_results, download_pdfs, stage, count, event).need;
            &&& need is Download ==> begins(need->Download_url, "https://arxiv.org/pdf/"@)
            &&& need is Keep ==> event is Bytes && is_pdf(event->Bytes_0) && gzipped(event->Bytes_0)
                == Ok::<Seq<u8>, Seq<char>>(need->bytes)
        }),
{
    let need = crawl_step(query, max_results, download_pdfs, stage, count, event).need;
    if need is Download {
        let host = "https://arxiv.org/pdf/"@;
        assert(need->Download_url.subrange(0, host.len() as int) =~= host);
    }
}

/// A search succeeds exactly if one of the archives answered.
pub proof fn law_one_archive_is_enough(query: Seq<char>, max_results: usize, count: Count)
    ensures
        crawl_next(Archive::Crossref, query, max_results, count).need == (if count.succeeded > 0 {
            CrawlNeedView::Finish(Ok(count.saved))
        } else {
            CrawlNeedView::Finish(Err(FailureView::Refused(ErrorView::SourcesFailed)))
        }),
{
}

// ---------------------------------------------------------------------------
// Whole searches

/// Where a search stands after all of `events`.
pub open spec fn crawled(
    query: Seq<char>,
    max_results: usize,
    download_pdfs: bool,
    turn: CrawlTurn,
    events: Seq<CrawlEventView>,
) -> CrawlTurn
    decreases events.len(),
{
    if events.len() == 0 {
        turn
    } else {
        crawled(
            query,
            max_results,
            download_pdfs,
            crawl_step(query, max_results, download_pdfs, turn.stage, turn.count, events[0]),
            events.drop_first(),
        )
    }
}

/// The papers that a search has asked to be saved by the time that all of `events` have come.
pub open spec fn saves_asked(
    query: Seq<char>,
    max_results: usize,
    download_pdfs: bool,
    turn: CrawlTurn,
    events: Seq<CrawlEventView>,
) -> Seq<PaperView>
    decreases events.len(),
{
    let now = match turn.need {
        CrawlNeedView::Save { paper } => seq![paper],
        _ => Seq::empty(),
    };
    if events.len() == 0 {
        now
    } else {
        now + saves_asked(
            query,
            max_results,
            download_pdfs,
            crawl_step(query, max_results, download_pdfs, turn.stage, turn.count, events[0]),
            events.drop_first(),
        )
    }
}

/// The archives that a search has asked by the time that all of `events` have come.
pub open spec fn archives_asked(
    query: Seq<char>,
    max_results: usize,
    download_pdfs: bool,
    turn: CrawlTurn,
    events: Seq<CrawlEventView>,
) -> Seq<Archive>
    decreases events.len(),
{
    let now = match turn.need {
        CrawlNeedView::Search { at, .. } => seq![at],
        _ => Seq::empty(),
    };
    if events.len() == 0 {
        now
    } else {
        now + archives_asked(
            query,
            max_results,
            download_pdfs,
            crawl_step(query, max_results, download_pdfs, turn.stage, turn.count, events[0]),
            events.drop_first(),
        )
    }
}

/// The first `max` papers of each list that came, one list after the other.
pub open spec fn papers_given(events: Seq<CrawlEventView>, max: nat) -> Seq<PaperView>
    decreases events.len(),
{
    if events.len() == 0 {
        Seq::empty()
    } else {
        (match events[0] {
            CrawlEventView::Found { papers } => papers.take(
                if papers.len() < max {
                    papers.len() as int
                } else {
                    max as int
                },
            ),
            _ => Seq::empty(),
        }) + papers_given(events.drop_first(), max)
    }
}

/// How many papers were reported as new.
pub open spec fn new_papers(events: Seq<CrawlEventView>) -> nat
    decreases events.len(),
{
    if events.len() == 0 {
        0
    } else {
        (if events[0] == CrawlEventView::Saved(true) {
            1nat
        } else {
            0
        }) + new_papers(events.drop_first())
    }
}

/// How many archives answered.
pub open spec fn answers_given(events: Seq<CrawlEventView>) -> nat
    decreases events.len(),
{
    if events.len() == 0 {
        0
    } else {
        (if events[0] is Found {
            1nat
        } else {
            0
        }) + answers_given(events.drop_first())
    }
}

/// What a search still has to save, and what it has yet to ask.
spec fn outstanding(turn: CrawlTurn) -> Seq<PaperView> {
    match turn.stage {
        CrawlStageView::Saving { paper, rest, .. } => seq![paper] + rest,
        CrawlStageView::LookingUp { rest, .. } => rest,
        CrawlStageView::Downloading { rest, .. } => rest,
        CrawlStageView::Keeping { rest, .. } => rest,
        _ => Seq::empty(),
    }
}

spec fn archives_left(turn: CrawlTurn) -> Seq<Archive> {
    match turn.stage {
        CrawlStageView::Searching { at } => if at == Archive::Arxiv {
            seq![Archive::Arxiv, Archive::Crossref]
        } else {
            seq![Archive::Crossref]
        },
        CrawlStageView::Saving { at, .. }
        | CrawlStageView::LookingUp { at, .. }
        | CrawlStageView::Downloading { at, .. }
        | CrawlStageView::Keeping { at, .. } => if at == Archive::Arxiv {
            seq![Archive::Crossref]
        } else {
            Seq::empty()
        },
        CrawlStageView::Finished => Seq::empty(),
    }
}

/// The need of a search is the one of its stage.
spec fn consistent(turn: CrawlTurn) -> bool {
    match turn.stage {
        CrawlStageView::Searching { at } => turn.need is Search && turn.need->Search_at == at,
        CrawlStageView::Saving { paper, .. } => turn.need == (CrawlNeedView::Save { paper }),
        CrawlStageView::LookingUp { .. } => turn.need is LookUp,
        CrawlStageView::Downloading { .. } => turn.need is Download,
        CrawlStageView::Keeping { .. } => turn.need is Keep,
        CrawlStageView::Finished => turn.need is Finish,
    }
}

proof fn lemma_step_consistent(
    query: Seq<char>,
    max_results: usize,
    download_pdfs: bool,
    turn: CrawlTurn,
    event: CrawlEventView,
)
    requires
        consistent(turn),
    ensures
        ({
            let next = crawl_step(
                query,
                max_results,
                download_pdfs,
                turn.stage,
                turn.count,
                event,
            );
            let fine = !(next.need is Finish && next.need->Finish_0 is Err);
            let now = match turn.need {
                CrawlNeedView::Save { paper } => seq![paper],
                _ => Seq::empty(),
            };
            let asked = match turn.need {
                CrawlNeedView::Search { at, .. } => seq![at],
                _ => Seq::empty(),
            };
            let given = match event {
                CrawlEventView::Found { papers } => papers.take(
                    if papers.len() < max_results {
                        papers.len() as int
                    } else {
                        max_results as int
                    },
                ),
                _ => Seq::<PaperView>::empty(),
            };
            &&& consistent(next)
            &&& fine ==> now + outstanding(next) == outstanding(turn) + given
            &&& fine ==> asked + archives_left(next) == archives_left(turn)
            &&& fine && event is Found ==> outstanding(turn).len() == 0
            &&& fine ==> turn.need !is Finish
            &&& fine && next.need is Finish ==> next.need->Finish_0 == Ok::<usize, FailureView>(
                next.count.saved,
            ) && next.count.succeeded > 0
            &&& fine ==> next.count.saved == if event == CrawlEventView::Saved(true) {
                one_more(turn.count.saved)
            } else {
                turn.count.saved
            }
            &&& fine ==> next.count.succeeded == if event is Found {
                one_more(turn.count.succeeded)
            } else {
                turn.count.succeeded
            }
        }),
{
    match (turn.stage, event) {
        (CrawlStageView::Searching { at }, CrawlEventView::Found { papers }) => {
            let first = at_most(papers, max_results as nat);
            if papers.len() <= max_results {
                assert(papers.take(papers.len() as int) =~= papers);
            }
            if first.len() > 0 {
                assert(seq![first[0]] + first.drop_first() =~= first);
            }
        },
        (CrawlStageView::Saving { at, paper, rest }, _) => {
            if rest.len() > 0 {
                assert(seq![rest[0]] + rest.drop_first() =~= rest);
            }
        },
        (CrawlStageView::LookingUp { rest, .. }, _) | (CrawlStageView::Keeping { rest, .. }, _) => {
            if rest.len() > 0 {
                assert(seq![rest[0]] + rest.drop_first() =~= rest);
            }
        },
        _ => {},
    }
    let next = crawl_step(query, max_results, download_pdfs, turn.stage, turn.count, event);
    let now: Seq<PaperView> = match turn.need {
        CrawlNeedView::Save { paper } => seq![paper],
        _ => Seq::empty(),
    };
    let given = match event {
        CrawlEventView::Found { papers } => papers.take(
            if papers.len() < max_results {
                papers.len() as int
            } else {
                max_results as int
            },
        ),
        _ => Seq::<PaperView>::empty(),
    };
    if !(next.need is Finish && next.need->Finish_0 is Err) {
        assert(now + outstanding(next) =~= outstanding(turn) + given);
        let asked: Seq<Archive> = match turn.need {
            CrawlNeedView::Search { at, .. } => seq![at],
            _ => Seq::empty(),
        };
        assert(asked + archives_left(next) =~= archives_left(turn));
    }
}

/// The least of a number and the largest count.
spec fn counted(n: nat) -> nat {
    if n < usize::MAX {
        n
    } else {
        usize::MAX as nat
    }
}

proof fn lemma_failed_stays_failed(
    query: Seq<char>,
    max_results: usize,
    download_pdfs: bool,
    turn: CrawlTurn,
    events: Seq<CrawlEventView>,
)
    requires
        turn.stage is Finished,
        turn.need is Finish,
        turn.need->Finish_0 is Err,
    ensures
        crawled(query, max_results, download_pdfs, turn, events).need is Finish,
        crawled(query, max_results, download_pdfs, turn, events).need->Finish_0 is Err,
    decreases events.len(),
{
    if events.len() > 0 {
        lemma_failed_stays_failed(
            query,
            max_results,
            download_pdfs,
            crawl_step(query, max_results, download_pdfs, turn.stage, turn.count, events[0]),
            events.drop_first(),
        );
    }
}

/// A search has reached the next archive, or its end.
spec fn turning(turn: CrawlTurn) -> bool {
    turn.need is Search || turn.need is Finish && turn.need->Finish_0 is Ok
}

/// The archives that are asked after the present one.
spec fn archives_beyond(turn: CrawlTurn) -> Seq<Archive> {
    if turn.stage == (CrawlStageView::Searching { at: Archive::Arxiv }) {
        seq![Archive::Crossref]
    } else {
        Seq::empty()
    }
}

proof fn lemma_crawled(
    query: Seq<char>,
    max_results: usize,
    download_pdfs: bool,
    turn: CrawlTurn,
    events: Seq<CrawlEventView>,
)
    requires
        consistent(turn),
        turning(crawled(query, max_results, download_pdfs, turn, events)),
    ensures
        ({
            let last = crawled(query, max_results, download_pdfs, turn, events);
            &&& consistent(last)
            &&& saves_asked(query, max_results, download_pdfs, turn, events) == outstanding(turn)
                + papers_given(events, max_results as nat)
            &&& archives_asked(query, max_results, download_pdfs, turn, events) + archives_beyond(
                last,
            ) == archives_left(turn)
            &&& last.count.saved == counted(turn.count.saved as nat + new_papers(events))
            &&& last.count.succeeded == counted(turn.count.succeeded as nat + answers_given(events))
            &&& events.len() > 0 && last.need is Finish ==> last.need->Finish_0 == Ok::<
                usize,
                FailureView,
            >(last.count.saved) && last.count.succeeded > 0
        }),
    decreases events.len(),
{
    let last = crawled(query, max_results, download_pdfs, turn, events);
    let all = saves_asked(query, max_results, download_pdfs, turn, events);
    let archives = archives_asked(query, max_results, download_pdfs, turn, events);
    if events.len() == 0 {
        assert(all =~= outstanding(turn) + papers_given(events, max_results as nat));
        assert(archives + archives_beyond(last) =~= archives_left(turn));
    } else {
        let next = crawl_step(
            query,
            max_results,
            download_pdfs,
            turn.stage,
            turn.count,
            events[0],
        );
        let rest = events.drop_first();
        lemma_step_consistent(query, max_results, download_pdfs, turn, events[0]);
        if next.need is Finish && next.need->Finish_0 is Err {
            lemma_failed_stays_failed(query, max_results, download_pdfs, next, rest);
        }
        lemma_crawled(query, max_results, download_pdfs, next, rest);
        let first: Seq<PaperView> = match turn.need {
            CrawlNeedView::Save { paper } => seq![paper],
            _ => Seq::empty(),
        };
        let asked: Seq<Archive> = match turn.need {
            CrawlNeedView::Search { at, .. } => seq![at],
            _ => Seq::empty(),
        };
        let given = match events[0] {
            CrawlEventView::Found { papers } => papers.take(
                if papers.len() < max_results {
                    papers.len() as int
                } else {
                    max_results as int
                },
            ),
            _ => Seq::<PaperView>::empty(),
        };
        let then = papers_given(rest, max_results as nat);
        assert(all =~= first + (outstanding(next) + then));
        assert(all =~= (first + outstanding(next)) + then);
        assert(all =~= outstanding(turn) + (given + then));
        let later = archives_asked(query, max_results, download_pdfs, next, rest);
        assert(archives + archives_beyond(last) =~= asked + (later + archives_beyond(last)));
        assert(archives + archives_beyond(last) =~= archives_left(turn));
        if rest.len() == 0 {
            assert(last == next);
        }
    }
}

/// A search leaves out no paper: whichever archive answers, each of the first `max_results` papers
/// that it gave is asked to be saved, in their order, before the next archive is asked and before
/// the search ends. A search that ends well has asked both archives, the one after the other, had
/// an answer, and counts the papers that were new.
pub proof fn law_search_is_complete(
    query: Seq<char>,
    max_results: usize,
    download_pdfs: bool,
    events: Seq<CrawlEventView>,
)
    ensures
        ({
            let first = crawl_begins(query, max_results);
            let last = crawled(query, max_results, download_pdfs, first, events);
            let saves = saves_asked(query, max_results, download_pdfs, first, events);
            let archives = archives_asked(query, max_results, download_pdfs, first, events);
            let done = last.need is Finish && last.need->Finish_0 is Ok;
            &&& last.need is Search || done ==> saves == papers_given(events, max_results as nat)
            &&& last.need is Search ==> last.need->Search_at == archives.last() && (archives
                == seq![Archive::Arxiv] || archives == seq![Archive::Arxiv, Archive::Crossref])
            &&& done ==> archives == seq![Archive::Arxiv, Archive::Crossref]
            &&& done ==> answers_given(events) > 0
            &&& done && new_papers(events) <= usize::MAX ==> last.need->Finish_0->Ok_0
                == new_papers(events)
        }),
{
    let first = crawl_begins(query, max_results);
    let last = crawled(query, max_results, download_pdfs, first, events);
    if turning(last) {
        if first.need is Finish {
            lemma_failed_stays_failed(query, max_results, download_pdfs, first, events);
        }
        lemma_crawled(query, max_results, download_pdfs, first, events);
        let archives = archives_asked(query, max_results, download_pdfs, first, events);
        let left = archives_left(first);
        assert(left =~= seq![Archive::Arxiv, Archive::Crossref]);
        if last.stage == (CrawlStageView::Searching { at: Archive::Arxiv }) {
            assert(archives =~= left.take(1));
            assert(left.take(1) =~= seq![Archive::Arxiv]);
        } else {
            assert(archives =~= left);
        }
        assert(saves_asked(query, max_results, download_pdfs, first, events) =~= papers_given(
            events,
            max_results as nat,
        ));
    }
}

/// How archives and a store answer a search: an archive gives its papers or nothing, a paper is
/// new unless the store has it, and the PDF of every paper is there.
pub open spec fn library_answers(
    arxiv: Option<Seq<PaperView>>,
    crossref: Option<Seq<PaperView>>,
    store: Set<PaperView>,
    need: CrawlNeedView,
) -> (Set<PaperView>, CrawlEventView) {
    match need {
        CrawlNeedView::Search { at, .. } => (
            store,
            match if at == Archive::Arxiv {
                arxiv
            } else {
                crossref
            } {
                Some(papers) => CrawlEventView::Found { papers },
                None => CrawlEventView::Unavailable,
            },
        ),
        CrawlNeedView::Save { paper } => (
            store.insert(paper),
            CrawlEventView::Saved(!store.contains(paper)),
        ),
        CrawlNeedView::LookUp(_) => (store, CrawlEventView::Known(true)),
        _ => (store, CrawlEventView::Failed(FailureView::Refused(ErrorView::Unexpected))),
    }
}

/// What comes of a search within `steps` answers.
pub open spec fn crawl_run(
    query: Seq<char>,
    max_results: usize,
    download_pdfs: bool,
    arxiv: Option<Seq<PaperView>>,
    crossref: Option<Seq<PaperView>>,
    store: Set<PaperView>,
    turn: CrawlTurn,
    steps: nat,
) -> (Set<PaperView>, Option<Result<usize, FailureView>>)
    decreases steps,
{
    match turn.need {
        CrawlNeedView::Finish(res) => (store, Some(res)),
        need => if steps == 0 {
            (store, None)
        } else {
            let answer = library_answers(arxiv, crossref, store, need);
            crawl_run(
                query,
                max_results,
                download_pdfs,
                arxiv,
                crossref,
                answer.0,
                crawl_step(query, max_results, download_pdfs, turn.stage, turn.count, answer.1),
                (steps - 1) as nat,
            )
        },
    }
}

/// The store with the papers, and how many of them it did not have.
pub open spec fn shelved(store: Set<PaperView>, papers: Seq<PaperView>) -> (Set<PaperView>, nat)
    decreases papers.len(),
{
    if papers.len() == 0 {
        (store, 0)
    } else {
        let rest = shelved(store.insert(papers[0]), papers.drop_first());
        (
            rest.0,
            rest.1 + if store.contains(papers[0]) {
                0nat
            } else {
                1
            },
        )
    }
}

proof fn lemma_shelved_more(store: Set<PaperView>, papers: Seq<PaperView>, more: Seq<PaperView>)
    ensures
        shelved(store, papers + more) == (
            shelved(shelved(store, papers).0, more).0,
            shelved(store, papers).1 + shelved(shelved(store, papers).0, more).1,
        ),
    decreases papers.len(),
{
    if papers.len() == 0 {
        assert(papers + more =~= more);
    } else {
        assert((papers + more).drop_first() =~= papers.drop_first() + more);
        lemma_shelved_more(store.insert(papers[0]), papers.drop_first(), more);
    }
}

proof fn lemma_run_saves(
    query: Seq<char>,
    max_results: usize,
    download_pdfs: bool,
    arxiv: Option<Seq<PaperView>>,
    crossref: Option<Seq<PaperView>>,
    store: Set<PaperView>,
    at: Archive,
    count: Count,
    rest: Seq<PaperView>,
    steps: nat,
) -> (left: nat)
    requires
        steps >= 2 * rest.len(),
        count.saved + rest.len() < usize::MAX,
    ensures
        left >= steps - 2 * rest.len(),
        count.saved + shelved(store, rest).1 < usize::MAX,
        crawl_run(
            query,
            max_results,
            download_pdfs,
            arxiv,
            crossref,
            store,
            crawl_saves(at, query, max_results, count, rest),
            steps,
        ) == crawl_run(
            query,
            max_results,
            download_pdfs,
            arxiv,
            crossref,
            shelved(store, rest).0,
            crawl_next(
                at,
                query,
                max_results,
                Count { saved: (count.saved + shelved(store, rest).1) as usize, ..count },
            ),
            left,
        ),
        shelved(store, rest).1 <= rest.len(),
    decreases rest.len(),
{
    if rest.len() == 0 {
        assert((Count { saved: (count.saved + 0) as usize, ..count }) == count);
        steps
    } else {
        reveal_with_fuel(crawl_run, 3);
        let fresh = !store.contains(rest[0]);
        let now = Count {
            saved: if fresh {
                one_more(count.saved)
            } else {
                count.saved
            },
            ..count
        };
        let used: nat = if download_pdfs && rest[0].source == "arxiv"@ {
            2
        } else {
            1
        };
        lemma_run_saves(
            query,
            max_results,
            download_pdfs,
            arxiv,
            crossref,
            store.insert(rest[0]),
            at,
            now,
            rest.drop_first(),
            (steps - used) as nat,
        )
    }
}

/// The first `max` papers that an archive gave.
pub open spec fn firsts(papers: Option<Seq<PaperView>>, max: nat) -> Seq<PaperView> {
    match papers {
        Some(papers) => papers.take(
            if papers.len() < max {
                papers.len() as int
            } else {
                max as int
            },
        ),
        None => Seq::empty(),
    }
}

proof fn lemma_run_archive(
    query: Seq<char>,
    max_results: usize,
    download_pdfs: bool,
    arxiv: Option<Seq<PaperView>>,
    crossref: Option<Seq<PaperView>>,
    store: Set<PaperView>,
    at: Archive,
    count: Count,
    steps: nat,
) -> (left: nat)
    requires
        steps >= 2 * max_results + 1,
        count.saved + max_results < usize::MAX,
        count.succeeded < 2,
    ensures
        ({
            let found = if at == Archive::Arxiv {
                arxiv
            } else {
                crossref
            };
            let owed = shelved(store, firsts(found, max_results as nat));
            let now = Count {
                saved: (count.saved + owed.1) as usize,
                succeeded: (count.succeeded + if found is Some {
                    1int
                } else {
                    0
                }) as usize,
            };
            &&& left >= steps - 2 * max_results - 1
            &&& owed.1 <= max_results
            &&& crawl_run(
                query,
                max_results,
                download_pdfs,
                arxiv,
                crossref,
                store,
                crawl_searches(at, query, max_results, count),
                steps,
            ) == crawl_run(
                query,
                max_results,
                download_pdfs,
                arxiv,
                crossref,
                owed.0,
                crawl_next(at, query, max_results, now),
                left,
            )
        }),
{
    let found = if at == Archive::Arxiv {
        arxiv
    } else {
        crossref
    };
    let given = firsts(found, max_results as nat);
    if found is Some && found->0.len() <= max_results {
        assert(given =~= found->0);
    }
    let heard = Count {
        succeeded: if found is Some {
            one_more(count.succeeded)
        } else {
            count.succeeded
        },
        ..count
    };
    let turn = crawl_searches(at, query, max_results, count);
    let answer = library_answers(arxiv, crossref, store, turn.need);
    assert(crawl_step(query, max_results, download_pdfs, turn.stage, turn.count, answer.1)
        == crawl_saves(at, query, max_results, heard, given));
    lemma_run_saves(
        query,
        max_results,
        download_pdfs,
        arxiv,
        crossref,
        store,
        at,
        heard,
        given,
        (steps - 1) as nat,
    )
}

/// What a search brings: where the query is in bounds, it saves the first `max_results` papers of
/// each archive that answers and ends with how many of them were new; it fails only if neither
/// archive answers.
pub proof fn law_search_outcome(
    query: Seq<char>,
    max_results: usize,
    download_pdfs: bool,
    arxiv: Option<Seq<PaperView>>,
    crossref: Option<Seq<PaperView>>,
    store: Set<PaperView>,
    steps: nat,
)
    requires
        !blank(query),
        size(query) <= 512,
        max_results < 1_000_000,
        steps >= 4 * max_results + 2,
    ensures
        ({
            let owed = shelved(
                store,
                firsts(arxiv, max_results as nat) + firsts(crossref, max_results as nat),
            );
            crawl_run(
                query,
                max_results,
                download_pdfs,
                arxiv,
                crossref,
                store,
                crawl_begins(query, max_results),
                steps,
            ) == (
                owed.0,
                Some(
                    if arxiv is Some || crossref is Some {
                        Ok::<usize, FailureView>(owed.1 as usize)
                    } else {
                        Err(FailureView::Refused(ErrorView::SourcesFailed))
                    },
                ),
            )
        }),
{
    let of_arxiv = firsts(arxiv, max_results as nat);
    lemma_shelved_more(store, of_arxiv, firsts(crossref, max_results as nat));
    let left = lemma_run_archive(
        query,
        max_results,
        download_pdfs,
        arxiv,
        crossref,
        store,
        Archive::Arxiv,
        Count { saved: 0, succeeded: 0 },
        steps,
    );
    let between = shelved(store, of_arxiv);
    lemma_run_archive(
        query,
        max_results,
        download_pdfs,
        arxiv,
        crossref,
        between.0,
        Archive::Crossref,
        Count {
            saved: between.1 as usize,
            succeeded: if arxiv is Some {
                1
            } else {
                0
            },
        },
        left,
    );
}

/// A paper of arXiv whose PDF is wanted and not there is downloaded by the number behind `/abs/`,
/// and what comes is kept under the digest of the paper's identity.
pub proof fn law_pdf_of_a_paper(
    query: Seq<char>,
    max_results: usize,
    at: Archive,
    paper: PaperView,
    rest: Seq<PaperView>,
    count: Count,
    fresh: bool,
    lead: Seq<char>,
    number: Seq<char>,
    bytes: Seq<u8>,
)
    requires
        paper.source == "arxiv"@,
        paper.id == lead + "/abs/"@ + number,
        forall|j: int| 0 <= j < lead.len() ==> !stands_at(paper.id, "/abs/"@, j),
        pdf_id(number),
        bytes.len() >= 5,
        bytes.take(5) == seq![37u8, 80, 68, 70, 45],
        gzipped(bytes) is Ok,
    ensures
        ({
            let name = "pdf-"@ + digested(vstd::utf8::encode_utf8(paper.id)) + ".pdf.gz"@;
            let looks = crawl_step(
                query,
                max_results,
                true,
                CrawlStageView::Saving { at, paper, rest },
                count,
                CrawlEventView::Saved(fresh),
            );
            let loads = crawl_step(
                query,
                max_results,
                true,
                looks.stage,
                looks.count,
                CrawlEventView::Known(false),
            );
            let keeps = crawl_step(
                query,
                max_results,
                true,
                loads.stage,
                loads.count,
                CrawlEventView::Bytes(bytes),
            );
            &&& looks.need == CrawlNeedView::LookUp(name)
            &&& loads.need == (CrawlNeedView::Download { url: "https://arxiv.org/pdf/"@ + number })
            &&& keeps.need == (CrawlNeedView::Keep { name, bytes: gzipped(bytes)->Ok_0 })
        }),
{
    reveal_strlit("/abs/");
    let id = paper.id;
    assert(id.subrange(lead.len() as int, lead.len() as int + 5) =~= "/abs/"@);
    assert(stands_at(id, "/abs/"@, lead.len() as int));
    let n = lead.len() as int;
    assert(stands_at(id, "/abs/"@, n) && (forall|j: int|
        0 <= j < n ==> !stands_at(id, "/abs/"@, j)));
    let first = first_at(id, "/abs/"@);
    assert(stands_at(id, "/abs/"@, first) && (forall|j: int|
        0 <= j < first ==> !stands_at(id, "/abs/"@, j)));
    assert(first == n);
    assert(id.skip(n + 5) =~= number);
    let five = bytes.take(5);
    assert(bytes[0] == five[0] && bytes[1] == five[1] && bytes[2] == five[2] && bytes[3] == five[3]
        && bytes[4] == five[4]);
}

// ---------------------------------------------------------------------------
// What archives are asked and what they give

/// Each archive is asked at its own address for papers on the query, as many as the settings say:
/// arXiv for the newest that are about aerospace and hold the query, Crossref for articles on
/// aerospace and the query. Nothing in a query can end the words that it stands in.
pub proof fn law_archives_are_asked(query: Seq<char>, max_results: usize, count: Count)
    requires
        forall|i: int|
            0 <= i < query.len() ==> #[trigger] query[i] != '"' && query[i] != '\\',
    ensures
        ({
            let need = crawl_searches(Archive::Arxiv, query, max_results, count).need;
            &&& need is Search
            &&& need->Search_url == "https://export.arxiv.org/api/query"@
            &&& need->params.len() == 4
            &&& need->params[0] == (
                "search_query"@,
                "(all:aerospace OR all:spacecraft OR all:aerodynamics OR all:propulsion) AND all:\""@
                    + query + "\""@,
            )
            &&& need->params[1] == ("max_results"@, numeral(max_results as nat))
            &&& need->params[2] == ("sortBy"@, "submittedDate"@)
            &&& need->params[3] == ("sortOrder"@, "descending"@)
        }),
        ({
            let need = crawl_searches(Archive::Crossref, query, max_results, count).need;
            &&& need is Search
            &&& need->Search_url == "https://api.crossref.org/works"@
            &&& need->params.len() == 3
            &&& need->params[0] == ("query"@, "aerospace "@ + query)
            &&& need->params[1] == ("rows"@, numeral(max_results as nat))
            &&& need->params[2] == ("filter"@, "type:journal-article"@)
        }),
{
    reveal_strlit("\"");
    reveal_strlit("\\");
    assert(!occurs(query, "\""@)) by {
        if occurs(query, "\""@) {
            let k = choose|k: int| stands_at(query, "\""@, k);
            assert(query.subrange(k, k + 1)[0] == query[k]);
        }
    }
    assert(!occurs(query, "\\"@)) by {
        if occurs(query, "\\"@) {
            let k = choose|k: int| stands_at(query, "\\"@, k);
            assert(query.subrange(k, k + 1)[0] == query[k]);
        }
    }
    law_replaced(query, "\""@, " "@, 0);
    law_replaced(query, "\\"@, " "@, 0);
}

/// What stands in the words that arXiv is asked is the query with blanks for its quotation marks and
/// backslashes: no such mark is left in it.
pub proof fn law_query_is_plain(query: Seq<char>, mark: char)
    ensures
        ({
            let plain = replaced(query, seq![mark], " "@);
            &&& plain.len() == query.len()
            &&& forall|i: int|
                0 <= i < query.len() ==> #[trigger] plain[i] == if query[i] == mark {
                    ' '
                } else {
                    query[i]
                }
        }),
    decreases query.len(),
{
    reveal_strlit(" ");
    let plain = replaced(query, seq![mark], " "@);
    if query.len() > 0 {
        let rest = query.skip(1);
        law_query_is_plain(rest, mark);
        assert(begins(query, seq![mark]) <==> query[0] == mark) by {
            let first = query.subrange(0, 1);
            assert(first[0] == query[0]);
            if query[0] == mark {
                assert(first =~= seq![mark]);
            }
            if begins(query, seq![mark]) {
                assert(first == seq![mark]);
                assert(seq![mark][0] == mark);
            }
        }
        assert forall|i: int| 0 <= i < query.len() implies #[trigger] plain[i] == if query[i]
            == mark {
            ' '
        } else {
            query[i]
        } by {
            if i > 0 {
                assert(rest[i - 1] == query[i]);
                assert(plain[i] == replaced(rest, seq![mark], " "@)[i - 1]);
            }
        }
    }
}

/// The papers of Crossref's reply are its items that have an identity and a title, in their order,
/// each with its own words; an item without them is passed over.
pub proof fn law_crossref_items(items: Seq<JsonView>, item: JsonView)
    ensures
        crossref_papers(Seq::<JsonView>::empty()) == Seq::<PaperView>::empty(),
        ({
            let before = crossref_papers(items);
            let after = crossref_papers(items.push(item));
            let id = item.get("DOI"@);
            let title = first_in(item.get("title"@));
            if id is Some && id->0 is Text && title is Some && title->0 is Text {
                &&& after.len() == before.len() + 1
                &&& after.drop_last() == before
                &&& after.last().source == "crossref"@
                &&& after.last().id == id->0->Text_0
                &&& after.last().url == "https://doi.org/"@ + id->0->Text_0
                &&& after.last().title == title->0->Text_0
                &&& after.last().abstract_text == match item.get("abstract"@) {
                    Some(JsonView::Text(text)) => text,
                    _ => ""@,
                }
                &&& after.last().published == match get_in(item.get("created"@), "date-time"@) {
                    Some(JsonView::Text(text)) => text,
                    _ => ""@,
                }
            } else {
                after == before
            }
        }),
{
    assert(items.push(item).drop_last() =~= items);
    let before = crossref_papers(items);
    if crossref_paper(item) is Some {
        assert(before.push(crossref_paper(item)->0).drop_last() =~= before);
    }
}

/// The papers of arXiv's feed are its entries, each of them: under its own identity, its title on one
/// line, its summary without the blanks around it, and its address over an encrypted connection.
pub proof fn law_arxiv_entries(entries: Seq<Entry>, i: int, rest: Seq<char>)
    requires
        0 <= i < entries.len(),
        entries[i].id@ == "http://"@ + rest,
        !occurs(rest, "http://"@),
    ensures
        ({
            let papers = arxiv_papers(entries);
            &&& papers.len() == entries.len()
            &&& papers[i].source == "arxiv"@
            &&& papers[i].id == entries[i].id@
            &&& papers[i].url == "https://"@ + rest
            &&& papers[i].title == joined(words(entries[i].title@), " "@)
            &&& papers[i].abstract_text == trimmed(entries[i].summary@)
            &&& papers[i].published == entries[i].published@
        }),
{
    reveal_strlit("http://");
    let id = entries[i].id@;
    assert(id.subrange(0, 7) =~= "http://"@);
    law_replaced(id, "http://"@, "https://"@, 0);
    law_replaced(rest, "http://"@, "https://"@, 0);
    assert(id.skip(7) =~= rest);
    assert(id.take(0) + "https://"@ =~= "https://"@);
}

/// Crossref's reply gives the papers of the items in its message; a reply of another form is refused.
pub proof fn law_crossref_reply(body: JsonView, items: Seq<JsonView>)
    ensures
        get_in(body.get("message"@), "items"@) == Some(JsonView::List(items)) ==> crossref_reply(
            Ok(body),
        ) == Ok::<Seq<PaperView>, ErrorView>(crossref_papers(items)),
        !(get_in(body.get("message"@), "items"@) is Some && get_in(
            body.get("message"@),
            "items"@,
        )->0 is List) ==> crossref_reply(Ok(body)) == Err::<Seq<PaperView>, ErrorView>(
            ErrorView::CrossrefShape,
        ),
{
}

/// A search is begun with any query that says something in at most 512 bytes, at arXiv; any other is
/// refused. What fails on the way, other than an archive, ends the search with it.
pub proof fn law_search_begins(
    query: Seq<char>,
    max_results: usize,
    download_pdfs: bool,
    stage: CrawlStageView,
    count: Count,
    failure: FailureView,
)
    ensures
        ({
            let turn = crawl_begins(query, max_results);
            &&& turn.count == Count { saved: 0, succeeded: 0 }
            &&& blank(query) || size(query) > 512 ==> turn.need == CrawlNeedView::Finish(
                Err(FailureView::Refused(ErrorView::ResearchQueryLength)),
            )
            &&& !blank(query) && size(query) <= 512 ==> turn.need is Search
                && turn.need->at == Archive::Arxiv
        }),
        crawl_step(
            query,
            max_results,
            download_pdfs,
            stage,
            count,
            CrawlEventView::Failed(failure),
        ).need == CrawlNeedView::Finish(Err(failure)),
{
}

/// Only a paper of arXiv with a number that can stand in an address is downloaded, and only a PDF is
/// kept; a search in which one is neither ends there. One that is there already is passed over.
pub proof fn law_other_pdfs(
    query: Seq<char>,
    max_results: usize,
    at: Archive,
    name: Seq<char>,
    id: Seq<char>,
    lead: Seq<char>,
    number: Seq<char>,
    rest: Seq<PaperView>,
    count: Count,
    bytes: Seq<u8>,
)
    ensures
        ({
            let turn = crawl_step(
                query,
                max_results,
                true,
                CrawlStageView::LookingUp { at, name, id, rest },
                count,
                CrawlEventView::Known(false),
            );
            let first = id == lead + "/abs/"@ + number && forall|j: int|
                0 <= j < lead.len() ==> !stands_at(id, "/abs/"@, j);
            &&& (forall|j: int| !stands_at(id, "/abs/"@, j)) ==> turn.need == CrawlNeedView::Finish(
                Err(FailureView::Refused(ErrorView::ArxivId)),
            )
            &&& first && (number.len() == 0 || (exists|j: int| stands_at(number, ".."@, j)) || (
            exists|j: int|
                0 <= j < number.len() && !('a' <= (#[trigger] number[j]) <= 'z' || 'A' <= number[j]
                    <= 'Z' || '0' <= number[j] <= '9' || number[j] == '-' || number[j] == '.'
                    || number[j] == '/'))) ==> turn.need == CrawlNeedView::Finish(
                Err(FailureView::Refused(ErrorView::ArxivPdfId)),
            )
        }),
        ({
            let turn = crawl_step(
                query,
                max_results,
                true,
                CrawlStageView::Downloading { at, name, rest },
                count,
                CrawlEventView::Bytes(bytes),
            );
            bytes.len() < 5 || bytes.take(5) != seq![37u8, 80, 68, 70, 45] ==> turn.need
                == CrawlNeedView::Finish(Err(FailureView::Refused(ErrorView::NotPdf)))
        }),
        ({
            let there = crawl_step(
                query,
                max_results,
                true,
                CrawlStageView::LookingUp { at, name, id, rest },
                count,
                CrawlEventView::Known(true),
            );
            let kept = crawl_step(
                query,
                max_results,
                true,
                CrawlStageView::Keeping { at, rest },
                count,
                CrawlEventView::Done,
            );
            there == kept
        }),
{
    reveal_strlit("/abs/");
    let first = id == lead + "/abs/"@ + number && forall|j: int|
        0 <= j < lead.len() ==> !stands_at(id, "/abs/"@, j);
    if first {
        let n = lead.len() as int;
        assert(id.subrange(n, n + 5) =~= "/abs/"@);
        assert(stands_at(id, "/abs/"@, n) && (forall|j: int|
            0 <= j < n ==> !stands_at(id, "/abs/"@, j)));
        let at = first_at(id, "/abs/"@);
        assert(stands_at(id, "/abs/"@, at) && (forall|j: int|
            0 <= j < at ==> !stands_at(id, "/abs/"@, j)));
        assert(at == n);
        assert(id.skip(n + 5) =~= number);
    }
    if is_pdf(bytes) {
        assert(bytes.take(5) =~= seq![37u8, 80, 68, 70, 45]);
    }
}

} // verus!
