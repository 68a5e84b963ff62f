//! Feeds, article pages, and the selection of papers.
use crate::error::{seen, Error, ErrorView};
use crate::json::{Json, JsonView};
use crate::link::{self, joined_link, link_of, maybe_link, Link, LinkView};
use crate::tasks::aerospace::storage::{paper_views, Paper, PaperView};
use crate::text::{
    blank, byte_len, is_blank, lemma_size_concat, lemma_size_len, lemma_size_push, maybe, same,
    size, split_words, text_from, utf8_text, views, width, words,
};
use vstd::prelude::*;

verus! {

// ---------------------------------------------------------------------------
// The text of a page

/// A node of a page: its text, where it is a text, and the elements that it stands in.
#[derive(Debug)]
pub struct Node {
    pub text: Option<String>,
    pub within: Vec<Option<String>>,
}

pub struct NodeView {
    pub text: Option<Seq<char>>,
    pub within: Seq<Option<Seq<char>>>,
}

pub open spec fn maybe_views(list: Seq<Option<String>>) -> Seq<Option<Seq<char>>> {
    Seq::new(list.len(), |i: int| maybe(list[i]))
}

impl View for Node {
    type V = NodeView;

    open spec fn view(&self) -> NodeView {
        NodeView { text: maybe(self.text), within: maybe_views(self.within@) }
    }
}

pub open spec fn node_views(nodes: Seq<Node>) -> Seq<NodeView> {
    Seq::new(nodes.len(), |i: int| nodes[i]@)
}

/// The nodes of a piece of HTML.
pub uninterp spec fn nodes_of(html: Seq<char>) -> Seq<NodeView>;

/// The text of the first element that a selector selects on a page.
pub uninterp spec fn selected_text(html: Seq<char>, selector: Seq<char>) -> Option<Seq<char>>;

/// The HTML of the first element that a selector selects on a page.
pub uninterp spec fn selected_html(html: Seq<char>, selector: Seq<char>) -> Option<Seq<char>>;

/// `scraper::Html::parse_fragment`: the nodes of the tree in the order of `nodes`, each with its
/// text, if it is a text, and the names of the elements among its `ancestors`; a function of the
/// HTML, named `nodes_of`.
#[verifier::external_body]
fn parse_nodes(html: &str) -> (res: Vec<Node>)
    ensures
        node_views(res@) == nodes_of(html@),
{
    let document = scraper::Html::parse_fragment(html);
    let name = |element: &scraper::node::Element| element.name().to_owned();
    document.tree.nodes().map(|node| Node {
        text: node.value().as_text().map(|text| text.to_string()),
        within: node.ancestors().map(|a| a.value().as_element().map(name)).collect(),
    }).collect()
}

/// `scraper::Html::select` on a page: the text of the first element that the selector selects, if
/// there is one; a function of the page and the selector, named `selected_text`.
#[verifier::external_body]
fn select_text(html: &str, selector: &str) -> (res: Option<String>)
    ensures
        maybe(res) == selected_text(html@, selector@),
{
    let selector = scraper::Selector::parse(selector).ok()?;
    let document = scraper::Html::parse_document(html);
    let element = document.select(&selector).next()?;
    Some(element.text().collect())
}

/// `scraper::Html::select` on a page: the HTML of the first element that the selector selects, if
/// there is one; a function of the page and the selector, named `selected_html`.
#[verifier::external_body]
fn select_html(html: &str, selector: &str) -> (res: Option<String>)
    ensures
        maybe(res) == selected_html(html@, selector@),
{
    let selector = scraper::Selector::parse(selector).ok()?;
    let document = scraper::Html::parse_document(html);
    let element = document.select(&selector).next()?;
    Some(element.html())
}

/// An element whose text a reader does not read.
pub open spec fn hiding(name: Option<Seq<char>>) -> bool {
    match name {
        Some(name) => name == "script"@ || name == "style"@ || name == "nav"@ || name == "footer"@
            || name == "noscript"@,
        None => false,
    }
}

/// The node stands in an element whose text a reader does not read.
pub open spec fn hidden(node: NodeView) -> bool {
    exists|i: int| 0 <= i < node.within.len() && hiding(#[trigger] node.within[i])
}

/// The words that a reader reads.
pub open spec fn read_words(nodes: Seq<NodeView>) -> Seq<Seq<char>>
    decreases nodes.len(),
{
    if nodes.len() == 0 {
        Seq::empty()
    } else {
        let rest = read_words(nodes.drop_first());
        match nodes[0].text {
            Some(text) => if hidden(nodes[0]) {
                rest
            } else {
                words(text) + rest
            },
            None => rest,
        }
    }
}

/// As many of the words, with single spaces between them, as fit in `max` bytes behind `out`; a
/// space is counted for each.
pub open spec fn gathered(list: Seq<Seq<char>>, out: Seq<char>, max: nat) -> Seq<char>
    decreases list.len(),
{
    if list.len() == 0 || size(out) + size(list[0]) + 1 > max {
        out
    } else {
        gathered(
            list.drop_first(),
            if out.len() == 0 {
                list[0]
            } else {
                out + " "@ + list[0]
            },
            max,
        )
    }
}

/// The text of a piece of HTML, of at most `max` bytes.
pub open spec fn page_text(nodes: Seq<NodeView>, max: nat) -> Seq<char> {
    gathered(read_words(nodes), ""@, max)
}

fn is_hiding(name: &Option<String>) -> (res: bool)
    ensures
        res == hiding(maybe(*name)),
{
    match name {
        Some(name) => {
            let name = name.as_str();
            same(name, "script") || same(name, "style") || same(name, "nav") || same(name, "footer")
                || same(name, "noscript")
        },
        None => false,
    }
}

fn is_hidden(node: &Node) -> (res: bool)
    ensures
        res == hidden(node@),
{
    let mut i: usize = 0;
    while i < node.within.len()
        invariant
            i <= node.within.len(),
            forall|j: int| 0 <= j < i ==> !hiding(#[trigger] node@.within[j]),
        decreases node.within.len() - i,
    {
        assert(node@.within[i as int] == maybe(node.within@[i as int]));
        if is_hiding(&node.within[i]) {
            return true;
        }
        i = i + 1;
    }
    false
}

/// Adds words to `out` as long as they fit; says whether all did.
fn gather(list: &Vec<String>, out: &mut String, max: usize, Ghost(behind): Ghost<Seq<Seq<char>>>) -> (res:
    bool)
    ensures
        gathered(views(list@) + behind, old(out)@, max as nat) == if res {
            gathered(behind, final(out)@, max as nat)
        } else {
            final(out)@
        },
{
    let ghost first = out@;
    let ghost all = views(list@) + behind;
    let mut i: usize = 0;
    assert(all.skip(0) =~= all);
    proof {
        reveal_strlit("");
    }
    while i < list.len()
        invariant
            i <= list.len(),
            all == views(list@) + behind,
            first == old(out)@,
            ""@.len() == 0,
            gathered(all, first, max as nat) == gathered(all.skip(i as int), out@, max as nat),
        decreases list.len() - i,
    {
        let word = list[i].as_str();
        proof {
            assert(all.skip(i as int)[0] == word@);
            assert(all.skip(i as int).drop_first() =~= all.skip(i + 1));
            assert(out@.len() == 0 ==> out@ =~= ""@);
        }
        let used = byte_len(out.as_str());
        let more = byte_len(word);
        if !(used < max && more < max - used) {
            return false;
        }
        if !same(out.as_str(), "") {
            out.append(" ");
            out.append(word);
        } else {
            assert(""@ + word@ =~= word@);
            out.append(word);
        }
        i = i + 1;
    }
    assert(all.skip(i as int) =~= behind);
    true
}

/// The text of nodes, of at most `max` bytes.
pub fn text_of_nodes(nodes: &Vec<Node>, max: usize) -> (res: String)
    ensures
        res@ == page_text(node_views(nodes@), max as nat),
{
    let ghost all = node_views(nodes@);
    let mut out = "".to_owned();
    let mut i: usize = 0;
    assert(all.skip(0) =~= all);
    while i < nodes.len()
        invariant
            i <= nodes.len(),
            all == node_views(nodes@),
            page_text(all, max as nat) == gathered(
                read_words(all.skip(i as int)),
                out@,
                max as nat,
            ),
        decreases nodes.len() - i,
    {
        let node = &nodes[i];
        assert(all.skip(i as int)[0] == node@);
        assert(all.skip(i as int).drop_first() =~= all.skip(i + 1));
        if let Some(text) = &node.text {
            if !is_hidden(node) {
                let list = split_words(text.as_str());
                let ghost behind = read_words(all.skip(i + 1));
                if !gather(&list, &mut out, max, Ghost(behind)) {
                    return out;
                }
            }
        }
        i = i + 1;
    }
    out
}

/// The text of a piece of HTML, of at most `max` bytes.
pub fn text(html: &str, max: usize) -> (res: String)
    ensures
        res@ == page_text(nodes_of(html@), max as nat),
{
    text_of_nodes(&parse_nodes(html), max)
}

proof fn lemma_gathered_fits(list: Seq<Seq<char>>, out: Seq<char>, max: nat)
    requires
        size(out) <= max,
    ensures
        size(gathered(list, out, max)) <= max,
    decreases list.len(),
{
    if list.len() > 0 && size(out) + size(list[0]) + 1 <= max {
        let more = if out.len() == 0 {
            list[0]
        } else {
            out + " "@ + list[0]
        };
        if out.len() > 0 {
            lemma_size_concat(out + " "@, list[0]);
            lemma_size_concat(out, " "@);
            assert(size(" "@) == 1) by {
                reveal_strlit(" ");
                crate::text::lemma_size_push(Seq::empty(), ' ');
                assert(" "@ =~= Seq::<char>::empty().push(' '));
                crate::text::lemma_size_len(Seq::empty());
            }
        }
        lemma_gathered_fits(list.drop_first(), more, max);
    }
}

/// The text of a page fits in the bytes that it was given.
pub proof fn law_text_fits(nodes: Seq<NodeView>, max: nat)
    ensures
        size(page_text(nodes, max)) <= max,
{
    assert(size(""@) == 0) by {
        reveal_strlit("");
        assert(""@ =~= Seq::<char>::empty());
        crate::text::lemma_size_len(Seq::empty());
    }
    lemma_gathered_fits(read_words(nodes), ""@, max);
}

// ---------------------------------------------------------------------------
// Feeds

/// An item of an RSS feed.
#[derive(Debug)]
pub struct Item {
    pub title: String,
    pub link: String,
    pub description: String,
    pub date: String,
}

/// A reference of an Atom entry.
#[derive(Debug)]
pub struct Reference {
    pub href: String,
    pub rel: String,
}

/// An entry of an Atom feed.
#[derive(Debug)]
pub struct Entry {
    pub title: String,
    pub link: Vec<Reference>,
    pub summary: String,
    pub published: String,
}

pub struct OfferView {
    pub title: Seq<char>,
    pub link: Seq<char>,
    pub body: Seq<char>,
    pub date: Seq<char>,
}

/// Something that a source offers to read.
#[derive(Debug)]
pub struct Offer {
    pub title: String,
    pub link: String,
    pub body: String,
    pub date: String,
}

impl View for Offer {
    type V = OfferView;

    open spec fn view(&self) -> OfferView {
        OfferView { title: self.title@, link: self.link@, body: self.body@, date: self.date@ }
    }
}

pub open spec fn offer_views(offers: Seq<Offer>) -> Seq<OfferView> {
    Seq::new(offers.len(), |i: int| offers[i]@)
}

/// The items of an RSS feed, as they stand.
pub open spec fn items_offered(items: Seq<Item>) -> Seq<OfferView> {
    Seq::new(
        items.len(),
        |i: int|
            OfferView {
                title: items[i].title@,
                link: items[i].link@,
                body: items[i].description@,
                date: items[i].date@,
            },
    )
}

/// The first reference that leads to the entry itself.
pub open spec fn leading(links: Seq<Reference>) -> Seq<char>
    decreases links.len(),
{
    if links.len() == 0 {
        ""@
    } else if links[0].rel@ == ""@ || links[0].rel@ == "alternate"@ {
        links[0].href@
    } else {
        leading(links.drop_first())
    }
}

/// The entries of an Atom feed, each with the reference that leads to it.
pub open spec fn entries_offered(entries: Seq<Entry>) -> Seq<OfferView> {
    Seq::new(
        entries.len(),
        |i: int|
            OfferView {
                title: entries[i].title@,
                link: leading(entries[i].link@),
                body: entries[i].summary@,
                date: entries[i].published@,
            },
    )
}

/// What a feed offers: the items of RSS, or the entries of Atom where there are none.
pub open spec fn feed_offers(rss: Option<Vec<Item>>, atom: Option<Vec<Entry>>) -> Seq<OfferView> {
    if rss is Some && rss->0@.len() > 0 {
        items_offered(rss->0@)
    } else if atom is Some {
        entries_offered(atom->0@)
    } else {
        Seq::empty()
    }
}

/// What a page offers: itself, where it has a title.
pub open spec fn page_offer(
    url: Seq<char>,
    content: Seq<char>,
    title: Option<Seq<char>>,
    article: Option<Seq<char>>,
) -> Option<OfferView> {
    let title = match title {
        Some(title) => title,
        None => ""@,
    };
    if blank(title) {
        None
    } else {
        Some(
            OfferView {
                title,
                link: url,
                body: page_text(
                    nodes_of(
                        match article {
                            Some(article) => article,
                            None => content,
                        },
                    ),
                    16000,
                ),
                date: ""@,
            },
        )
    }
}

/// A link that may be followed: HTTPS, or HTTP to this machine, without credentials.
pub open spec fn followable(link: LinkView) -> bool {
    &&& link.scheme == "https"@ || link.scheme == "http"@ && (link.host == Some("localhost"@)
        || link.host == Some("127.0.0.1"@))
    &&& link.username == ""@
    &&& link.password is None
}

/// The paper that an offer makes, if its link may be followed and it has a title.
pub open spec fn offered_paper(offer: OfferView, link: Option<LinkView>) -> Option<PaperView> {
    match link {
        Some(link) => if followable(link) && !blank(offer.title) {
            Some(
                PaperView {
                    source: "web"@,
                    id: link.bare,
                    url: link.bare,
                    title: page_text(nodes_of(offer.title), 1000),
                    abstract_text: page_text(nodes_of(offer.body), 16000),
                    published: offer.date,
                },
            )
        } else {
            None
        },
        None => None,
    }
}

/// The papers that offers make, read against the address that they came from.
pub open spec fn offered_papers(offers: Seq<OfferView>, base: Seq<char>) -> Seq<PaperView>
    decreases offers.len(),
{
    if offers.len() == 0 {
        Seq::empty()
    } else {
        let before = offered_papers(offers.drop_last(), base);
        match offered_paper(offers.last(), joined_link(base, offers.last().link)) {
            Some(paper) => before.push(paper),
            None => before,
        }
    }
}

/// The first `max` of a list.
pub open spec fn capped(offers: Seq<OfferView>, max: nat) -> Seq<OfferView> {
    if offers.len() <= max {
        offers
    } else {
        offers.take(max as int)
    }
}

/// What a source has to read: the offers of its feed or the article of its page.
pub open spec fn sourced(
    url: Seq<char>,
    bytes: Seq<u8>,
    feed: Seq<OfferView>,
    max: nat,
) -> Result<Seq<PaperView>, ErrorView> {
    match text_from(bytes) {
        Err(words) => Err(ErrorView::Outside(words)),
        Ok(content) => {
            let page = page_offer(
                url,
                content,
                selected_text(content, "title"@),
                selected_html(content, "article, main"@),
            );
            if feed.len() == 0 && page is None {
                Err(ErrorView::NotASource)
            } else {
                let offers = if feed.len() == 0 {
                    seq![page->0]
                } else {
                    feed
                };
                match link_of(url) {
                    Err(words) => Err(ErrorView::Outside(words)),
                    Ok(_) => Ok(offered_papers(capped(offers, max), url)),
                }
            }
        },
    }
}

fn leading_link(links: &Vec<Reference>) -> (res: String)
    ensures
        res@ == leading(links@),
{
    let mut i: usize = 0;
    assert(links@.skip(0) =~= links@);
    while i < links.len()
        invariant
            i <= links.len(),
            leading(links@) == leading(links@.skip(i as int)),
        decreases links.len() - i,
    {
        assert(links@.skip(i as int).drop_first() =~= links@.skip(i + 1));
        if same(links[i].rel.as_str(), "") || same(links[i].rel.as_str(), "alternate") {
            return links[i].href.clone();
        }
        i = i + 1;
    }
    "".to_owned()
}

fn offer_items(items: &Vec<Item>) -> (res: Vec<Offer>)
    ensures
        offer_views(res@) == items_offered(items@),
{
    let mut out: Vec<Offer> = Vec::new();
    let mut i: usize = 0;
    while i < items.len()
        invariant
            i <= items.len(),
            out.len() == i,
            forall|j: int| 0 <= j < i ==> (#[trigger] out@[j])@ == items_offered(items@)[j],
        decreases items.len() - i,
    {
        let item = &items[i];
        out.push(
            Offer {
                title: item.title.clone(),
                link: item.link.clone(),
                body: item.description.clone(),
                date: item.date.clone(),
            },
        );
        i = i + 1;
    }
    assert(offer_views(out@) =~= items_offered(items@));
    out
}

fn offer_entries(entries: &Vec<Entry>) -> (res: Vec<Offer>)
    ensures
        offer_views(res@) == entries_offered(entries@),
{
    let mut out: Vec<Offer> = Vec::new();
    let mut i: usize = 0;
    while i < entries.len()
        invariant
            i <= entries.len(),
            out.len() == i,
            forall|j: int|
                0 <= j < i ==> (#[trigger] out@[j])@ == entries_offered(entries@)[j],
        decreases entries.len() - i,
    {
        let entry = &entries[i];
        out.push(
            Offer {
                title: entry.title.clone(),
                link: leading_link(&entry.link),
                body: entry.summary.clone(),
                date: entry.published.clone(),
            },
        );
        i = i + 1;
    }
    assert(offer_views(out@) =~= entries_offered(entries@));
    out
}

/// Whether a link may be followed.
pub fn is_followable(link: &Link) -> (res: bool)
    ensures
        res == followable(link@),
{
    let local = match &link.host {
        Some(host) => same(host.as_str(), "localhost") || same(host.as_str(), "127.0.0.1"),
        None => false,
    };
    (same(link.scheme.as_str(), "https") || (same(link.scheme.as_str(), "http") && local)) && same(
        link.username.as_str(),
        "",
    ) && link.password.is_none()
}

/// The paper that an offer makes of its link.
pub fn make_paper(offer: &Offer, link: Option<Link>) -> (res: Option<Paper>)
    ensures
        (match res {
            Some(paper) => Some(paper@),
            None => None,
        }) == offered_paper(
            offer@,
            maybe_link(link),
        ),
{
    match link {
        Some(link) => if is_followable(&link) && !is_blank(offer.title.as_str()) {
            Some(
                Paper {
                    source: "web".to_owned(),
                    id: link.bare.clone(),
                    url: link.bare,
                    title: text(offer.title.as_str(), 1000),
                    abstract_text: text(offer.body.as_str(), 16000),
                    published: offer.date.clone(),
                },
            )
        } else {
            None
        },
        None => None,
    }
}

fn make_papers(offers: &Vec<Offer>, base: &str, max: usize) -> (res: Vec<Paper>)
    ensures
        paper_views(res@) == offered_papers(capped(offer_views(offers@), max as nat), base@),
{
    let ghost all = offer_views(offers@);
    let mut out: Vec<Paper> = Vec::new();
    let mut i: usize = 0;
    assert(paper_views(out@) =~= offered_papers(all.take(0), base@));
    while i < offers.len() && i < max
        invariant
            i <= offers.len(),
            i <= max,
            all == offer_views(offers@),
            paper_views(out@) == offered_papers(all.take(i as int), base@),
        decreases offers.len() - i,
    {
        assert(all.take(i + 1).drop_last() =~= all.take(i as int));
        assert(all.take(i + 1).last() == offers@[i as int]@);
        let link = link::join(base, offers[i].link.as_str());
        if let Some(paper) = make_paper(&offers[i], link) {
            let ghost before = out@;
            let ghost view = paper@;
            out.push(paper);
            assert(paper_views(out@) =~= paper_views(before).push(view));
        }
        i = i + 1;
    }
    assert(capped(all, max as nat) =~= all.take(i as int));
    out
}

/// What a page offers whose title and article were selected.
pub fn offer_page(
    url: &str,
    content: &str,
    title: Option<String>,
    article: Option<String>,
) -> (res: Option<Offer>)
    ensures
        (match res {
            Some(offer) => Some(offer@),
            None => None,
        }) == page_offer(url@, content@, maybe(title), maybe(article)),
{
    let title = match title {
        Some(title) => title,
        None => "".to_owned(),
    };
    if is_blank(title.as_str()) {
        return None;
    }
    let body = match article {
        Some(article) => text(article.as_str(), 16000),
        None => text(content, 16000),
    };
    Some(Offer { title, link: url.to_owned(), body, date: "".to_owned() })
}

/// Configured RSS/Atom sources or a single article page. No unrestricted model-selected URLs.
///
/// `rss` and `atom` are what the bytes are as a feed of either kind, if they are.
pub fn parse(
    url: &str,
    bytes: Vec<u8>,
    rss: &Option<Vec<Item>>,
    atom: &Option<Vec<Entry>>,
    max: usize,
) -> (res: Result<Vec<Paper>, Error>)
    ensures
        (match res {
            Ok(papers) => Ok(paper_views(papers@)),
            Err(error) => Err(error@),
        }) == sourced(url@, bytes@, feed_offers(*rss, *atom), max as nat),
{
    let content = match utf8_text(bytes) {
        Err(words) => {
            return Err(Error::Outside(words));
        },
        Ok(content) => content,
    };
    let mut offers: Vec<Offer> = Vec::new();
    assert(offer_views(offers@) =~= Seq::empty());
    if let Some(items) = rss {
        offers = offer_items(items);
    }
    if offers.len() == 0 {
        if let Some(entries) = atom {
            offers = offer_entries(entries);
        }
    }
    let ghost feed = feed_offers(*rss, *atom);
    assert(offer_views(offers@) =~= feed);
    if offers.len() == 0 {
        let title = select_text(content.as_str(), "title");
        let article = select_html(content.as_str(), "article, main");
        match offer_page(url, content.as_str(), title, article) {
            None => {
                return Err(Error::NotASource);
            },
            Some(offer) => {
                let ghost view = offer@;
                offers.push(offer);
                assert(offer_views(offers@) =~= seq![view]);
            },
        }
    }
    match link::parse(url) {
        Err(words) => Err(Error::Outside(words)),
        Ok(_) => Ok(make_papers(&offers, url, max)),
    }
}

// ---------------------------------------------------------------------------
// Selection

/// What a model thinks of a paper.
#[derive(Debug)]
pub struct Selection {
    pub relevant: bool,
    pub needs_review: bool,
    pub summary: String,
    pub reason: String,
}

pub struct SelectionView {
    pub relevant: bool,
    pub needs_review: bool,
    pub summary: Seq<char>,
    pub reason: Seq<char>,
}

impl View for Selection {
    type V = SelectionView;

    open spec fn view(&self) -> SelectionView {
        SelectionView {
            relevant: self.relevant,
            needs_review: self.needs_review,
            summary: self.summary@,
            reason: self.reason@,
        }
    }
}

impl SelectionView {
    /// What is wrong with the selection.
    pub open spec fn fault(self) -> Option<ErrorView> {
        if blank(self.reason) || size(self.reason) > 2000 || size(self.summary) > 3000 {
            Some(ErrorView::SelectionShape)
        } else if self.relevant && blank(self.summary) {
            Some(ErrorView::SelectionSummary)
        } else {
            None
        }
    }

    pub open spec fn json(self) -> JsonView {
        JsonView::object().with("needs_review"@, JsonView::Bool(self.needs_review)).with(
            "reason"@,
            JsonView::Text(self.reason),
        ).with("relevant"@, JsonView::Bool(self.relevant)).with(
            "summary"@,
            JsonView::Text(self.summary),
        )
    }
}

impl Selection {
    /// Admits a selection whose parts are within bounds.
    pub fn validate(&self) -> (res: Result<(), Error>)
        ensures
            seen(res) == match self@.fault() {
                None => Ok(()),
                Some(error) => Err(error),
            },
    {
        if is_blank(self.reason.as_str()) || byte_len(self.reason.as_str()) > 2000 || byte_len(
            self.summary.as_str(),
        ) > 3000 {
            return Err(Error::SelectionShape);
        }
        if self.relevant && is_blank(self.summary.as_str()) {
            return Err(Error::SelectionSummary);
        }
        Ok(())
    }

    pub fn json(&self) -> (res: Json)
        ensures
            res@ == self@.json(),
    {
        Json::object().with("needs_review", Json::Bool(self.needs_review)).with(
            "reason",
            Json::string(self.reason.as_str()),
        ).with("relevant", Json::Bool(self.relevant)).with(
            "summary",
            Json::string(self.summary.as_str()),
        )
    }
}

// ---------------------------------------------------------------------------
// What sources give

/// The text of a page is that of its nodes, one after the other: what stands in a script, a style,
/// the navigation, a footer or what is shown without scripts is left out, and so is what is no text.
pub proof fn law_page_is_read(nodes: Seq<NodeView>, more: Seq<NodeView>, node: NodeView)
    ensures
        read_words(nodes + more) == read_words(nodes) + read_words(more),
        ({
            let left_out = exists|i: int|
                0 <= i < node.within.len() && {
                    let name = #[trigger] node.within[i];
                    ||| name == Some("script"@)
                    ||| name == Some("style"@)
                    ||| name == Some("nav"@)
                    ||| name == Some("footer"@)
                    ||| name == Some("noscript"@)
                };
            &&& node.text is None || left_out ==> read_words(seq![node]) == Seq::<Seq<char>>::empty()
            &&& node.text is Some && !left_out ==> read_words(seq![node]) == words(node.text->0)
        }),
    decreases nodes.len(),
{
    lemma_read_more(nodes, more);
    let one = seq![node];
    assert(one.drop_first() =~= Seq::<NodeView>::empty());
    assert(read_words(one.drop_first()) =~= Seq::<Seq<char>>::empty());
    if node.text is Some {
        assert(words(node.text->0) + Seq::<Seq<char>>::empty() =~= words(node.text->0));
    }
    let left_out = exists|i: int|
        0 <= i < node.within.len() && {
            let name = #[trigger] node.within[i];
            ||| name == Some("script"@)
            ||| name == Some("style"@)
            ||| name == Some("nav"@)
            ||| name == Some("footer"@)
            ||| name == Some("noscript"@)
        };
    if left_out {
        let i = choose|i: int|
            0 <= i < node.within.len() && {
                let name = #[trigger] node.within[i];
                ||| name == Some("script"@)
                ||| name == Some("style"@)
                ||| name == Some("nav"@)
                ||| name == Some("footer"@)
                ||| name == Some("noscript"@)
            };
        assert(hiding(node.within[i]));
        assert(hidden(node));
    }
    if hidden(node) {
        let i = choose|i: int| 0 <= i < node.within.len() && hiding(#[trigger] node.within[i]);
        assert(node.within[i] is Some);
        assert(left_out);
    }
    assert(one[0] == node);
}

proof fn lemma_read_more(nodes: Seq<NodeView>, more: Seq<NodeView>)
    ensures
        read_words(nodes + more) == read_words(nodes) + read_words(more),
    decreases nodes.len(),
{
    if nodes.len() == 0 {
        assert(nodes + more =~= more);
        assert(read_words(nodes) + read_words(more) =~= read_words(more));
    } else {
        assert((nodes + more).drop_first() =~= nodes.drop_first() + more);
        assert((nodes + more)[0] == nodes[0]);
        lemma_read_more(nodes.drop_first(), more);
        assert(read_words(nodes + more) =~= read_words(nodes) + read_words(more));
    }
}

/// A text that fits is all its words with a blank between them; one that does not is the words that
/// fit, from the first on, up to one that does not fit behind them.
pub proof fn law_words_are_gathered(list: Seq<Seq<char>>, max: nat)
    ensures
        exists|n: int|
            {
                &&& 0 <= n <= list.len()
                &&& gathered(list, ""@, max) == #[trigger] joined_words(list.take(n))
                &&& n < list.len() ==> size(gathered(list, ""@, max)) + size(list[n]) + 1 > max
            },
        size(joined_words(list)) + 1 <= max && (forall|i: int|
            0 <= i < list.len() ==> (#[trigger] list[i]).len() > 0) ==> gathered(list, ""@, max)
            == joined_words(list),
{
    reveal_strlit("");
    let none = Seq::<Seq<char>>::empty();
    assert(joined_words(none) =~= ""@);
    lemma_gathered(none, list, max);
    assert(none + list =~= list);
    let n = choose|n: int|
        {
            &&& 0 <= n <= list.len()
            &&& gathered(list, joined_words(none), max) == #[trigger] joined_words(
                none + list.take(n),
            )
            &&& n < list.len() ==> size(gathered(list, joined_words(none), max)) + size(list[n]) + 1
                > max
        };
    assert(none + list.take(n) =~= list.take(n));
    assert(gathered(list, ""@, max) == joined_words(list.take(n)));
}

/// Words with a blank between them.
pub open spec fn joined_words(list: Seq<Seq<char>>) -> Seq<char>
    decreases list.len(),
{
    if list.len() == 0 {
        Seq::empty()
    } else {
        let before = joined_words(list.drop_last());
        if before.len() == 0 {
            list.last()
        } else {
            before + " "@ + list.last()
        }
    }
}

proof fn lemma_gathered(before: Seq<Seq<char>>, list: Seq<Seq<char>>, max: nat)
    ensures
        exists|n: int|
            {
                &&& 0 <= n <= list.len()
                &&& gathered(list, joined_words(before), max) == #[trigger] joined_words(
                    before + list.take(n),
                )
                &&& n < list.len() ==> size(gathered(list, joined_words(before), max)) + size(
                    list[n],
                ) + 1 > max
            },
        size(joined_words(before + list)) + 1 <= max && (forall|i: int|
            0 <= i < list.len() ==> (#[trigger] list[i]).len() > 0) ==> gathered(
            list,
            joined_words(before),
            max,
        ) == joined_words(before + list),
    decreases list.len(),
{
    let out = joined_words(before);
    if list.len() == 0 {
        assert(before + list.take(0) =~= before);
        assert(before + list =~= before);
        assert(gathered(list, out, max) == joined_words(before + list.take(0)));
    } else {
        let next = before.push(list[0]);
        let rest = list.drop_first();
        assert(next.drop_last() =~= before);
        assert(joined_words(next) == if out.len() == 0 {
            list[0]
        } else {
            out + " "@ + list[0]
        });
        lemma_gathered(next, rest, max);
        assert(next + rest =~= before + list);
        lemma_joined_grows(next, rest);
        reveal_strlit(" ");
        assert(size(" "@) == 1) by {
            lemma_size_len(Seq::<char>::empty());
            lemma_size_push(Seq::<char>::empty(), ' ');
            assert(Seq::<char>::empty().push(' ') =~= " "@);
            assert(width(' ') == 1);
        }
        lemma_size_concat(out, " "@);
        lemma_size_concat(out + " "@, list[0]);
        lemma_size_len(out);
        lemma_size_len(list[0]);
        if forall|i: int| 0 <= i < list.len() ==> (#[trigger] list[i]).len() > 0 {
            assert forall|i: int| 0 <= i < rest.len() implies (#[trigger] rest[i]).len() > 0 by {
                assert(rest[i] == list[i + 1]);
            }
            assert(size(joined_words(next)) <= size(joined_words(before + list)));
        }
        if size(out) + size(list[0]) + 1 > max {
            assert(before + list.take(0) =~= before);
            assert(gathered(list, out, max) == joined_words(before + list.take(0)));
        } else {
            let n = choose|n: int|
                {
                    &&& 0 <= n <= rest.len()
                    &&& gathered(rest, joined_words(next), max) == #[trigger] joined_words(
                        next + rest.take(n),
                    )
                    &&& n < rest.len() ==> size(gathered(rest, joined_words(next), max)) + size(
                        rest[n],
                    ) + 1 > max
                };
            assert(next + rest.take(n) =~= before + list.take(n + 1));
            assert(gathered(list, out, max) == joined_words(before + list.take(n + 1)));
        }
    }
}

proof fn lemma_joined_grows(before: Seq<Seq<char>>, list: Seq<Seq<char>>)
    ensures
        (forall|i: int| 0 <= i < list.len() ==> (#[trigger] list[i]).len() > 0) ==> size(
            joined_words(before),
        ) <= size(joined_words(before + list)),
    decreases list.len(),
{
    if list.len() == 0 {
        assert(before + list =~= before);
    } else {
        let less = list.drop_last();
        lemma_joined_grows(before, less);
        let all = before + list;
        assert(all.drop_last() =~= before + less);
        let got = joined_words(before + less);
        lemma_size_concat(got, " "@);
        lemma_size_concat(got + " "@, list.last());
        lemma_size_len(got);
        if forall|i: int| 0 <= i < list.len() ==> (#[trigger] list[i]).len() > 0 {
            assert forall|i: int| 0 <= i < less.len() implies (#[trigger] less[i]).len() > 0 by {
                assert(less[i] == list[i]);
            }
        }
    }
}

/// A source gives a paper for each of its first offers that has a title and leads somewhere that
/// may be followed, in their order: over an encrypted connection, or on this machine, and with no
/// name or password in it. The paper is known by its address.
pub proof fn law_offers(offers: Seq<OfferView>, offer: OfferView, base: Seq<char>)
    ensures
        offered_papers(Seq::<OfferView>::empty(), base) == Seq::<PaperView>::empty(),
        ({
            let before = offered_papers(offers, base);
            let after = offered_papers(offers.push(offer), base);
            let target = joined_link(base, offer.link);
            let led = target is Some && {
                let link = target->0;
                &&& link.scheme == "https"@ || (link.scheme == "http"@ && (link.host == Some(
                    "localhost"@,
                ) || link.host == Some("127.0.0.1"@)))
                &&& link.username.len() == 0
                &&& link.password is None
            };
            &&& led && !blank(offer.title) ==> after == before.push(
                PaperView {
                    source: "web"@,
                    id: target->0.bare,
                    url: target->0.bare,
                    title: page_text(nodes_of(offer.title), 1000),
                    abstract_text: page_text(nodes_of(offer.body), 16000),
                    published: offer.date,
                },
            )
            &&& !led || blank(offer.title) ==> after == before
        }),
{
    assert(offers.push(offer).drop_last() =~= offers);
    reveal_strlit("");
    let target = joined_link(base, offer.link);
    if target is Some {
        let link = target->0;
        assert(link.username == ""@ <==> link.username.len() == 0) by {
            if link.username.len() == 0 {
                assert(link.username =~= ""@);
            }
        }
    }
}

/// A source is what its feed offers, the first `max` of it; a page without a feed offers itself, if
/// it has a title, with the text of its article; and what is neither is refused.
pub proof fn law_source(url: Seq<char>, bytes: Seq<u8>, feed: Seq<OfferView>, max: nat)
    requires
        text_from(bytes) is Ok,
        link_of(url) is Ok,
        max > 0,
    ensures
        ({
            let content = text_from(bytes)->Ok_0;
            let title = selected_text(content, "title"@);
            let article = selected_html(content, "article, main"@);
            let res = sourced(url, bytes, feed, max);
            &&& feed.len() > 0 ==> res == Ok::<Seq<PaperView>, ErrorView>(
                offered_papers(
                    feed.take(
                        if feed.len() < max {
                            feed.len() as int
                        } else {
                            max as int
                        },
                    ),
                    url,
                ),
            )
            &&& feed.len() == 0 && (title is None || blank(title->0)) ==> res == Err::<
                Seq<PaperView>,
                ErrorView,
            >(ErrorView::NotASource)
            &&& feed.len() == 0 && title is Some && !blank(title->0) ==> res == Ok::<
                Seq<PaperView>,
                ErrorView,
            >(
                offered_papers(
                    seq![
                        OfferView {
                            title: title->0,
                            link: url,
                            body: page_text(
                                nodes_of(
                                    if article is Some {
                                        article->0
                                    } else {
                                        content
                                    },
                                ),
                                16000,
                            ),
                            date: ""@,
                        },
                    ],
                    url,
                ),
            )
        }),
{
    reveal_strlit("");
    if feed.len() <= max {
        assert(feed.take(feed.len() as int) =~= feed);
    }
    if feed.len() == max {
        assert(feed.take(max as int) =~= feed);
    }
}

/// A feed offers its items as they are; an entry leads where its first link says that is the page
/// itself, and nowhere without one.
pub proof fn law_feed(rss: Option<Vec<Item>>, atom: Option<Vec<Entry>>, i: int, k: int)
    ensures
        ({
            let offers = feed_offers(rss, atom);
            let items = rss is Some && rss->0@.len() > 0;
            &&& items ==> offers.len() == rss->0@.len()
            &&& items && 0 <= i < rss->0@.len() ==> offers[i] == (OfferView {
                title: rss->0@[i].title@,
                link: rss->0@[i].link@,
                body: rss->0@[i].description@,
                date: rss->0@[i].date@,
            })
            &&& !items && atom is Some ==> offers.len() == atom->0@.len()
            &&& !items && atom is Some && 0 <= i < atom->0@.len() ==> offers[i].title
                == atom->0@[i].title@ && offers[i].body == atom->0@[i].summary@ && offers[i].date
                == atom->0@[i].published@
            &&& !items && atom is Some && 0 <= i < atom->0@.len() && 0 <= k
                < atom->0@[i].link@.len() && own_page(atom->0@[i].link@[k]) && (forall|j: int|
                0 <= j < k ==> !own_page(#[trigger] atom->0@[i].link@[j])) ==> offers[i].link
                == atom->0@[i].link@[k].href@
            &&& !items && atom is Some && 0 <= i < atom->0@.len() && (forall|j: int|
                0 <= j < atom->0@[i].link@.len() ==> !own_page(#[trigger] atom->0@[i].link@[j]))
                ==> offers[i].link.len() == 0
            &&& !items && atom is None ==> offers.len() == 0
        }),
{
    let items = rss is Some && rss->0@.len() > 0;
    if !items && atom is Some && 0 <= i < atom->0@.len() && 0 <= k < atom->0@[i].link@.len()
        && own_page(atom->0@[i].link@[k]) && (forall|j: int|
        0 <= j < k ==> !own_page(#[trigger] atom->0@[i].link@[j])) {
        lemma_leading(atom->0@[i].link@, k);
    }
    if !items && atom is Some && 0 <= i < atom->0@.len() && (forall|j: int|
        0 <= j < atom->0@[i].link@.len() ==> !own_page(#[trigger] atom->0@[i].link@[j])) {
        lemma_leading_nowhere(atom->0@[i].link@);
    }
}

/// A link to the page itself.
pub open spec fn own_page(link: Reference) -> bool {
    link.rel@.len() == 0 || link.rel@ == "alternate"@
}

proof fn lemma_leading(links: Seq<Reference>, k: int)
    requires
        0 <= k < links.len(),
        own_page(links[k]),
        forall|j: int| 0 <= j < k ==> !own_page(#[trigger] links[j]),
    ensures
        leading(links) == links[k].href@,
    decreases links.len(),
{
    reveal_strlit("");
    if links[0].rel@.len() == 0 {
        assert(links[0].rel@ =~= ""@);
    }
    if k > 0 {
        assert(!own_page(links[0]));
        let rest = links.drop_first();
        assert forall|j: int| 0 <= j < k - 1 implies !own_page(#[trigger] rest[j]) by {
            assert(rest[j] == links[j + 1]);
        }
        lemma_leading(rest, k - 1);
    }
}

proof fn lemma_leading_nowhere(links: Seq<Reference>)
    requires
        forall|j: int| 0 <= j < links.len() ==> !own_page(#[trigger] links[j]),
    ensures
        leading(links).len() == 0,
    decreases links.len(),
{
    reveal_strlit("");
    if links.len() > 0 {
        assert(!own_page(links[0]));
        let rest = links.drop_first();
        assert forall|j: int| 0 <= j < rest.len() implies !own_page(#[trigger] rest[j]) by {
            assert(rest[j] == links[j + 1]);
        }
        lemma_leading_nowhere(rest);
    }
}

/// A source that is no text, or whose own address is none, gives nothing but the words that say so.
pub proof fn law_no_source(url: Seq<char>, bytes: Seq<u8>, feed: Seq<OfferView>, max: nat)
    ensures
        text_from(bytes) is Err ==> sourced(url, bytes, feed, max) == Err::<
            Seq<PaperView>,
            ErrorView,
        >(ErrorView::Outside(text_from(bytes)->Err_0)),
        text_from(bytes) is Ok && feed.len() > 0 && link_of(url) is Err ==> sourced(
            url,
            bytes,
            feed,
            max,
        ) == Err::<Seq<PaperView>, ErrorView>(ErrorView::Outside(link_of(url)->Err_0)),
{
}

} // verus!
