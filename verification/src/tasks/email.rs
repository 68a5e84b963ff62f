//! Email: what a message says, and how it ranks.
use crate::base::limits::{digest, digested};
use crate::error::{seen, Error, ErrorView};
use crate::failure::{Failure, FailureView};
use crate::json::{Json, JsonView};
use crate::text::{
    ascii, begins, byte_len, clip, clipped, contains, law_clipped, law_lowered_parts,
    lemma_size_concat, lemma_size_len, lowercase, lowered, maybe, occurs, or_empty, same_letters,
    size, stands_at, starts_with, value_or_empty, views,
};
use vstd::prelude::*;

verus! {

// ---------------------------------------------------------------------------
// Tiers

/// How much a message matters.
#[derive(Debug, PartialEq, Eq, Clone, Copy, Structural)]
pub enum Tier {
    Critical,
    Important,
    News,
    Other,
}

impl Tier {
    /// The tiers are counted from the most important.
    pub open spec fn rank(self) -> u8 {
        match self {
            Tier::Critical => 1,
            Tier::Important => 2,
            Tier::News => 3,
            Tier::Other => 4,
        }
    }

    /// The tier's name in documents.
    pub open spec fn word(self) -> Seq<char> {
        match self {
            Tier::Critical => "critical"@,
            Tier::Important => "important"@,
            Tier::News => "news"@,
            Tier::Other => "other"@,
        }
    }

    /// The tiers are counted from the most important.
    pub fn number(self) -> (res: u8)
        ensures
            res == self.rank(),
    {
        match self {
            Tier::Critical => 1,
            Tier::Important => 2,
            Tier::News => 3,
            Tier::Other => 4,
        }
    }

    /// The tier's name in documents.
    pub fn name(self) -> (res: String)
        ensures
            res@ == self.word(),
    {
        match self {
            Tier::Critical => "critical".to_owned(),
            Tier::Important => "important".to_owned(),
            Tier::News => "news".to_owned(),
            Tier::Other => "other".to_owned(),
        }
    }
}

/// What is kept of a message.
#[derive(Debug)]
pub struct OrganizedEmail {
    pub id: String,
    pub from: String,
    pub subject: String,
    pub tier: Tier,
    pub reason: String,
}

pub struct OrganizedEmailView {
    pub id: Seq<char>,
    pub from: Seq<char>,
    pub subject: Seq<char>,
    pub tier: Tier,
    pub reason: Seq<char>,
}

impl View for OrganizedEmail {
    type V = OrganizedEmailView;

    open spec fn view(&self) -> OrganizedEmailView {
        OrganizedEmailView {
            id: self.id@,
            from: self.from@,
            subject: self.subject@,
            tier: self.tier,
            reason: self.reason@,
        }
    }
}

impl Clone for OrganizedEmail {
    fn clone(&self) -> (res: OrganizedEmail)
        ensures
            res@ == self@,
    {
        OrganizedEmail {
            id: self.id.clone(),
            from: self.from.clone(),
            subject: self.subject.clone(),
            tier: self.tier,
            reason: self.reason.clone(),
        }
    }
}

impl OrganizedEmailView {
    pub open spec fn json(self) -> JsonView {
        JsonView::object().with("from"@, JsonView::Text(self.from)).with(
            "id"@,
            JsonView::Text(self.id),
        ).with("reason"@, JsonView::Text(self.reason)).with(
            "subject"@,
            JsonView::Text(self.subject),
        ).with("tier"@, JsonView::Text(self.tier.word()))
    }
}

impl OrganizedEmail {
    pub fn json(&self) -> (res: Json)
        ensures
            res@ == self@.json(),
    {
        Json::object().with("from", Json::string(self.from.as_str())).with(
            "id",
            Json::string(self.id.as_str()),
        ).with("reason", Json::string(self.reason.as_str())).with(
            "subject",
            Json::string(self.subject.as_str()),
        ).with("tier", Json::Text(self.tier.name()))
    }
}

// ---------------------------------------------------------------------------
// Ranking

/// The words of a critical message.
pub open spec fn critical_terms() -> Seq<Seq<char>> {
    seq![
        "bank statement"@,
        "financial statement"@,
        "financial record"@,
        "tax return"@,
        "tax document"@,
        "w-2"@,
        "1099"@,
        "fraud alert"@,
        "security breach"@,
        "account compromised"@,
        "legal notice"@,
        "court summons"@,
        "medical emergency"@,
        "evacuation"@,
        "mortgage statement"@,
        "investment statement"@,
        "urgent action required"@,
    ]
}

fn critical() -> (res: Vec<String>)
    ensures
        views(res@) == critical_terms(),
{
    let res: Vec<String> = vec![
        "bank statement".to_owned(),
        "financial statement".to_owned(),
        "financial record".to_owned(),
        "tax return".to_owned(),
        "tax document".to_owned(),
        "w-2".to_owned(),
        "1099".to_owned(),
        "fraud alert".to_owned(),
        "security breach".to_owned(),
        "account compromised".to_owned(),
        "legal notice".to_owned(),
        "court summons".to_owned(),
        "medical emergency".to_owned(),
        "evacuation".to_owned(),
        "mortgage statement".to_owned(),
        "investment statement".to_owned(),
        "urgent action required".to_owned(),
    ];
    assert(views(res@) =~= critical_terms());
    res
}

/// The words of an important message.
pub open spec fn important_terms() -> Seq<Seq<char>> {
    seq![
        "verification code"@,
        "security code"@,
        "one-time"@,
        "authentication"@,
        "sign-in"@,
        "sign in"@,
        "login"@,
        "password reset"@,
        "receipt"@,
        "invoice"@,
        "order confirmation"@,
        "payment confirmation"@,
        "appointment"@,
        "boarding pass"@,
        "verify your email"@,
    ]
}

fn important() -> (res: Vec<String>)
    ensures
        views(res@) == important_terms(),
{
    let res: Vec<String> = vec![
        "verification code".to_owned(),
        "security code".to_owned(),
        "one-time".to_owned(),
        "authentication".to_owned(),
        "sign-in".to_owned(),
        "sign in".to_owned(),
        "login".to_owned(),
        "password reset".to_owned(),
        "receipt".to_owned(),
        "invoice".to_owned(),
        "order confirmation".to_owned(),
        "payment confirmation".to_owned(),
        "appointment".to_owned(),
        "boarding pass".to_owned(),
        "verify your email".to_owned(),
    ];
    assert(views(res@) =~= important_terms());
    res
}

/// The words of a newsletter.
pub open spec fn news_terms() -> Seq<Seq<char>> {
    seq![
        "newsletter"@,
        "digest"@,
        "aerospace news"@,
        "tech news"@,
        "technology news"@,
        "space news"@,
        "weekly roundup"@,
        "unsubscribe"@,
    ]
}

fn news() -> (res: Vec<String>)
    ensures
        views(res@) == news_terms(),
{
    let res: Vec<String> = vec![
        "newsletter".to_owned(),
        "digest".to_owned(),
        "aerospace news".to_owned(),
        "tech news".to_owned(),
        "technology news".to_owned(),
        "space news".to_owned(),
        "weekly roundup".to_owned(),
        "unsubscribe".to_owned(),
    ];
    assert(views(res@) =~= news_terms());
    res
}

/// The first of the terms that stands in `text`.
pub open spec fn first_term(text: Seq<char>, terms: Seq<Seq<char>>) -> Option<Seq<char>>
    decreases terms.len(),
{
    if terms.len() == 0 {
        None
    } else if occurs(text, terms[0]) {
        Some(terms[0])
    } else {
        first_term(text, terms.drop_first())
    }
}

fn matching(text: &str, terms: &Vec<String>) -> (res: Option<String>)
    ensures
        maybe(res) == first_term(text@, views(terms@)),
{
    let ghost all = views(terms@);
    let mut i: usize = 0;
    assert(all.skip(0) =~= all);
    while i < terms.len()
        invariant
            i <= terms.len(),
            all == views(terms@),
            first_term(text@, all) == first_term(text@, all.skip(i as int)),
        decreases terms.len() - i,
    {
        assert(all.skip(i as int).drop_first() =~= all.skip(i + 1));
        assert(all.skip(i as int)[0] == terms@[i as int]@);
        if contains(text, terms[i].as_str()) {
            return Some(terms[i].clone());
        }
        i = i + 1;
    }
    None
}

/// The tier of a message in lower case, and why.
pub open spec fn ranked(text: Seq<char>, newsletter: bool) -> (Tier, Seq<char>) {
    if let Some(term) = first_term(text, critical_terms()) {
        (Tier::Critical, "matched phrase: "@ + term)
    } else if let Some(term) = first_term(text, important_terms()) {
        (Tier::Important, "matched phrase: "@ + term)
    } else if let Some(term) = first_term(text, news_terms()) {
        (Tier::News, "matched phrase: "@ + term)
    } else if newsletter {
        (Tier::News, "List-Id or List-Unsubscribe header"@)
    } else {
        (Tier::Other, "no higher-priority rule matched; review if needed"@)
    }
}

fn matched(term: &str) -> (res: String)
    ensures
        res@ == "matched phrase: "@ + term@,
{
    let mut out = "matched phrase: ".to_owned();
    out.append(term);
    out
}

/// The tier of a message whose text is in lower case already, and why.
pub fn classify_lowered(text: &str, newsletter: bool) -> (res: (Tier, String))
    ensures
        (res.0, res.1@) == ranked(text@, newsletter),
{
    if let Some(term) = matching(text, &critical()) {
        return (Tier::Critical, matched(term.as_str()));
    }
    if let Some(term) = matching(text, &important()) {
        return (Tier::Important, matched(term.as_str()));
    }
    if let Some(term) = matching(text, &news()) {
        return (Tier::News, matched(term.as_str()));
    }
    if newsletter {
        return (Tier::News, "List-Id or List-Unsubscribe header".to_owned());
    }
    (Tier::Other, "no higher-priority rule matched; review if needed".to_owned())
}

/// The tier of a message, and why.
pub fn classify(subject: &str, body: &str, newsletter: bool) -> (res: (Tier, String))
    ensures
        (res.0, res.1@) == ranked(lowered(subject@ + "\n"@ + body@), newsletter),
{
    let mut text = subject.to_owned();
    text.append("\n");
    text.append(body);
    classify_lowered(lowercase(text.as_str()).as_str(), newsletter)
}

proof fn lemma_first_term(text: Seq<char>, terms: Seq<Seq<char>>)
    ensures
        first_term(text, terms) is Some <==> exists|i: int|
            0 <= i < terms.len() && occurs(text, #[trigger] terms[i]),
    decreases terms.len(),
{
    if terms.len() > 0 {
        let rest = terms.drop_first();
        lemma_first_term(text, rest);
        if occurs(text, terms[0]) {
        } else if first_term(text, rest) is Some {
            let i = choose|i: int| 0 <= i < rest.len() && occurs(text, #[trigger] rest[i]);
            assert(occurs(text, terms[i + 1]));
        } else if exists|i: int| 0 <= i < terms.len() && occurs(text, #[trigger] terms[i]) {
            let i = choose|i: int| 0 <= i < terms.len() && occurs(text, #[trigger] terms[i]);
            assert(rest[i - 1] == terms[i]);
        }
    }
}

/// The text holds one of the terms.
pub open spec fn mentions(text: Seq<char>, terms: Seq<Seq<char>>) -> bool {
    exists|i: int| 0 <= i < terms.len() && occurs(text, #[trigger] terms[i])
}

/// The tiers rank in their order: a message is critical exactly if it holds a critical term,
/// whatever else it holds; important if it holds an important term and is not critical; news if
/// it is neither and is marked or worded as news; and everything else is other.
pub proof fn law_precedence(text: Seq<char>, newsletter: bool)
    ensures
        ({
            let critical = mentions(text, critical_terms());
            let important = mentions(text, important_terms());
            let news = newsletter || mentions(text, news_terms());
            &&& ranked(text, newsletter).0 == Tier::Critical <==> critical
            &&& ranked(text, newsletter).0 == Tier::Important <==> !critical && important
            &&& ranked(text, newsletter).0 == Tier::News <==> !critical && !important && news
            &&& ranked(text, newsletter).0 == Tier::Other <==> !critical && !important && !news
        }),
{
    lemma_first_term(text, critical_terms());
    lemma_first_term(text, important_terms());
    lemma_first_term(text, news_terms());
}

proof fn lemma_more_mentions(text: Seq<char>, more: Seq<char>, terms: Seq<Seq<char>>)
    requires
        mentions(text, terms),
    ensures
        mentions(text + more, terms),
{
    let i = choose|i: int| 0 <= i < terms.len() && occurs(text, #[trigger] terms[i]);
    let at = choose|at: int| stands_at(text, terms[i], at);
    assert((text + more).subrange(at, at + terms[i].len()) =~= text.subrange(
        at,
        at + terms[i].len(),
    ));
    assert(stands_at(text + more, terms[i], at));
    assert(occurs(text + more, terms[i]));
}

/// More text never lowers the priority of a message, since the rules of the higher tiers always
/// win: whatever is appended, the tier stays or is a higher one.
pub proof fn law_more_text(text: Seq<char>, more: Seq<char>, newsletter: bool)
    ensures
        ranked(text + more, newsletter).0.rank() <= ranked(text, newsletter).0.rank(),
{
    law_precedence(text, newsletter);
    law_precedence(text + more, newsletter);
    if mentions(text, critical_terms()) {
        lemma_more_mentions(text, more, critical_terms());
    }
    if mentions(text, important_terms()) {
        lemma_more_mentions(text, more, important_terms());
    }
    if mentions(text, news_terms()) {
        lemma_more_mentions(text, more, news_terms());
    }
}

/// More body never lowers the priority of a message: what `classify` gives for a longer body of
/// ASCII is a tier at least as high.
pub proof fn law_more_body(
    subject: Seq<char>,
    body: Seq<char>,
    more: Seq<char>,
    newsletter: bool,
)
    requires
        ascii(subject + "\n"@ + (body + more)),
    ensures
        ranked(lowered(subject + "\n"@ + (body + more)), newsletter).0.rank() <= ranked(
            lowered(subject + "\n"@ + body),
            newsletter,
        ).0.rank(),
{
    let short = subject + "\n"@ + body;
    assert(subject + "\n"@ + (body + more) =~= short + more);
    law_lowered_parts(short, more);
    law_more_text(lowered(short), lowered(more), newsletter);
}

// ---------------------------------------------------------------------------
// Messages

/// A part of a message, in the order in which a reader comes to it.
#[derive(Debug)]
pub struct Part {
    /// It holds no further parts.
    pub leaf: bool,
    pub mimetype: String,
    pub attachment: bool,
    /// Its text, or why it has none.
    pub body: Result<String, String>,
}

/// A header of a message.
#[derive(Debug)]
pub struct Header {
    pub key: String,
    pub value: String,
}

/// A message.
#[derive(Debug)]
pub struct Mail {
    pub headers: Vec<Header>,
    pub parts: Vec<Part>,
}

pub struct PartView {
    pub leaf: bool,
    pub mimetype: Seq<char>,
    pub attachment: bool,
    pub body: Result<Seq<char>, Seq<char>>,
}

pub struct MailView {
    pub headers: Seq<(Seq<char>, Seq<char>)>,
    pub parts: Seq<PartView>,
}

impl View for Part {
    type V = PartView;

    open spec fn view(&self) -> PartView {
        PartView {
            leaf: self.leaf,
            mimetype: self.mimetype@,
            attachment: self.attachment,
            body: match self.body {
                Ok(body) => Ok(body@),
                Err(error) => Err(error@),
            },
        }
    }
}

pub open spec fn part_views(parts: Seq<Part>) -> Seq<PartView> {
    Seq::new(parts.len(), |i: int| parts[i]@)
}

pub open spec fn header_views(headers: Seq<Header>) -> Seq<(Seq<char>, Seq<char>)> {
    Seq::new(headers.len(), |i: int| (headers[i].key@, headers[i].value@))
}

impl View for Mail {
    type V = MailView;

    open spec fn view(&self) -> MailView {
        MailView { headers: header_views(self.headers@), parts: part_views(self.parts@) }
    }
}

/// The message that the bytes hold, or the parser's words.
pub uninterp spec fn mail_of(bytes: Seq<u8>) -> Result<MailView, Seq<char>>;

/// `mailparse::parse_mail`: the headers in their order, by `MailHeader::get_key` and `get_value`,
/// and the parts in the order of `ParsedMail::parts`, each with its type, whether its disposition
/// is an attachment, and its text by `get_body`. All of it is a function of the bytes, named
/// `mail_of`. The parser calls itself for the parts of a part, and only where the first header
/// `Content-Type` of the part, its encoded words decoded, is a multipart that names a boundary; so
/// the depth is bounded by the number of such headers.
#[verifier::external_body]
fn parse_mail(bytes: &[u8]) -> (res: Result<Mail, String>)
    requires
        bounded(bytes@),
    ensures
        (match res {
            Ok(mail) => Ok(mail@),
            Err(error) => Err(error@),
        }) == mail_of(bytes@),
{
    let mail = mailparse::parse_mail(bytes).map_err(|error| error.to_string())?;
    let header = |h: &mailparse::MailHeader| Header { key: h.get_key(), value: h.get_value() };
    let part = |p: &mailparse::ParsedMail| Part {
        leaf: p.subparts.is_empty(),
        mimetype: p.ctype.mimetype.clone(),
        attachment: p.get_content_disposition().disposition
            == mailparse::DispositionType::Attachment,
        body: p.get_body().map_err(|error| error.to_string()),
    };
    Ok(Mail { headers: mail.headers.iter().map(header).collect(), parts: mail.parts().map(part).collect() })
}

/// The value of the first header of that name, in letters of either case.
pub open spec fn header(headers: Seq<(Seq<char>, Seq<char>)>, key: Seq<char>) -> Option<Seq<char>>
    decreases headers.len(),
{
    if headers.len() == 0 {
        None
    } else if same_letters(headers[0].0, key) {
        Some(headers[0].1)
    } else {
        header(headers.drop_first(), key)
    }
}

/// The value of the first header of that name, in letters of either case.
pub fn first_value(headers: &Vec<Header>, key: &str) -> (res: Option<String>)
    ensures
        maybe(res) == header(header_views(headers@), key@),
{
    let ghost all = header_views(headers@);
    let mut i: usize = 0;
    assert(all.skip(0) =~= all);
    while i < headers.len()
        invariant
            i <= headers.len(),
            all == header_views(headers@),
            header(all, key@) == header(all.skip(i as int), key@),
        decreases headers.len() - i,
    {
        assert(all.skip(i as int).drop_first() =~= all.skip(i + 1));
        assert(all.skip(i as int)[0] == (headers@[i as int].key@, headers@[i as int].value@));
        if crate::text::same_fold(headers[i].key.as_str(), key) {
            return Some(headers[i].value.clone());
        }
        i = i + 1;
    }
    None
}

/// A part that a reader reads: text that is no attachment.
pub open spec fn readable(part: PartView) -> bool {
    part.leaf && begins(part.mimetype, "text/"@) && !part.attachment
}

/// The text of the readable parts, as much of it as `room` bytes hold, after `out`.
pub open spec fn read_text(parts: Seq<PartView>, out: Seq<char>, room: nat) -> Result<
    Seq<char>,
    Seq<char>,
>
    decreases parts.len(),
{
    if parts.len() == 0 || room == 0 {
        Ok(out)
    } else if readable(parts[0]) {
        match parts[0].body {
            Err(error) => Err(error),
            Ok(body) => {
                let taken = clipped(body, room);
                read_text(parts.drop_first(), out + taken, (room - size(taken)) as nat)
            },
        }
    } else {
        read_text(parts.drop_first(), out, room)
    }
}

/// The text of the readable parts, as much of it as `room` bytes hold.
pub fn text_parts(parts: &Vec<Part>, room: usize) -> (res: Result<String, Error>)
    ensures
        (match res {
            Ok(text) => Ok(text@),
            Err(error) => Err(error@),
        }) == (match read_text(part_views(parts@), ""@, room as nat) {
            Ok(text) => Ok(text),
            Err(words) => Err(ErrorView::Outside(words)),
        }),
{
    let ghost all = part_views(parts@);
    let mut out = "".to_owned();
    let mut left: usize = room;
    let mut i: usize = 0;
    assert(all.skip(0) =~= all);
    while i < parts.len() && left > 0
        invariant
            i <= parts.len(),
            all == part_views(parts@),
            read_text(all, ""@, room as nat) == read_text(all.skip(i as int), out@, left as nat),
        decreases parts.len() - i,
    {
        let part = &parts[i];
        assert(all.skip(i as int).drop_first() =~= all.skip(i + 1));
        assert(all.skip(i as int)[0] == part@);
        if part.leaf && starts_with(part.mimetype.as_str(), "text/") && !part.attachment {
            match &part.body {
                Err(error) => {
                    return Err(Error::Outside(error.clone()));
                },
                Ok(body) => {
                    let taken = clip(body.as_str(), left);
                    proof {
                        law_clipped(body@, left as nat);
                    }
                    out.append(taken.as_str());
                    left = left - byte_len(taken.as_str());
                },
            }
        }
        i = i + 1;
    }
    Ok(out)
}

/// The byte, that of the lower-case letter for a Latin letter.
pub open spec fn low(b: u8) -> u8 {
    if 65 <= b <= 90 {
        (b + 32) as u8
    } else {
        b
    }
}

/// The word `boundary` stands at the start, in letters of either case.
pub open spec fn boundary_first(bytes: Seq<u8>) -> bool {
    &&& bytes.len() >= 8
    &&& low(bytes[0]) == 98
    &&& low(bytes[1]) == 111
    &&& low(bytes[2]) == 117
    &&& low(bytes[3]) == 110
    &&& low(bytes[4]) == 100
    &&& low(bytes[5]) == 97
    &&& low(bytes[6]) == 114
    &&& low(bytes[7]) == 121
}

/// The word `content-type` stands at the start, in letters of either case.
pub open spec fn type_first(bytes: Seq<u8>) -> bool {
    &&& bytes.len() >= 12
    &&& low(bytes[0]) == 99
    &&& low(bytes[1]) == 111
    &&& low(bytes[2]) == 110
    &&& low(bytes[3]) == 116
    &&& low(bytes[4]) == 101
    &&& low(bytes[5]) == 110
    &&& low(bytes[6]) == 116
    &&& low(bytes[7]) == 45
    &&& low(bytes[8]) == 116
    &&& low(bytes[9]) == 121
    &&& low(bytes[10]) == 112
    &&& low(bytes[11]) == 101
}

/// An encoded word begins before the header field ends that the bytes stand in; a line that begins
/// with a space or a tab continues the field.
pub open spec fn coded(bytes: Seq<u8>) -> bool
    decreases bytes.len(),
{
    if bytes.len() < 2 {
        false
    } else if bytes[0] == 61 && bytes[1] == 63 {
        true
    } else if bytes[0] == 10 && bytes[1] != 32 && bytes[1] != 9 {
        false
    } else {
        coded(bytes.drop_first())
    }
}

/// How often the word `boundary` stands in the bytes.
pub open spec fn boundaries(bytes: Seq<u8>) -> nat
    decreases bytes.len(),
{
    if bytes.len() == 0 {
        0
    } else {
        (if boundary_first(bytes) {
            1nat
        } else {
            0
        }) + boundaries(bytes.drop_first())
    }
}

/// The value of a header field can be the type of a multipart: behind blanks it begins as such a
/// type does, or with an encoded word, or with something other than a character of ASCII.
pub open spec fn opens(value: Seq<u8>) -> bool
    decreases value.len(),
{
    if value.len() == 0 {
        false
    } else if value[0] == 32 || value[0] == 9 || value[0] == 13 || value[0] == 10 {
        opens(value.drop_first())
    } else if 33 <= value[0] <= 126 {
        value[0] == 61 || low(value[0]) == 109 && value.len() > 1 && (low(value[1]) == 117
            || value[1] == 61)
    } else {
        true
    }
}

/// A header `Content-Type` stands at the start that can name the boundary of a multipart in an
/// encoded word.
pub open spec fn hidden_first(bytes: Seq<u8>) -> bool {
    type_first(bytes) && bytes.len() > 12 && bytes[12] == 58 && coded(bytes) && opens(
        bytes.skip(13),
    )
}

/// How many headers can name the boundary of a multipart in an encoded word.
pub open spec fn hidden(bytes: Seq<u8>) -> nat
    decreases bytes.len(),
{
    if bytes.len() == 0 {
        0
    } else {
        (if hidden_first(bytes) {
            1nat
        } else {
            0
        }) + hidden(bytes.drop_first())
    }
}

/// The nesting is bounded: each level needs a header that names its boundary, in plain letters or
/// in an encoded word. The two are bounded apart. The second bound is one of the machine: a few
/// times as many levels exhaust the stack of a thread.
pub open spec fn bounded(bytes: Seq<u8>) -> bool {
    boundaries(bytes) <= 32 && hidden(bytes) <= 256
}

proof fn lemma_rest_holds_fewer(bytes: Seq<u8>, i: int)
    requires
        0 <= i <= bytes.len(),
    ensures
        boundaries(bytes.skip(i)) <= boundaries(bytes),
        hidden(bytes.skip(i)) <= hidden(bytes),
    decreases i,
{
    if i == 0 {
        assert(bytes.skip(0) =~= bytes);
    } else {
        lemma_rest_holds_fewer(bytes.drop_first(), i - 1);
        assert(bytes.drop_first().skip(i - 1) =~= bytes.skip(i));
    }
}

fn lower_byte(b: u8) -> (res: u8)
    ensures
        res == low(b),
{
    if 65 <= b && b <= 90 {
        b + 32
    } else {
        b
    }
}

fn boundary_at(bytes: &[u8], i: usize) -> (res: bool)
    requires
        i <= bytes@.len(),
    ensures
        res == boundary_first(bytes@.skip(i as int)),
{
    if bytes.len() - i < 8 {
        return false;
    }
    lower_byte(bytes[i]) == 98 && lower_byte(bytes[i + 1]) == 111 && lower_byte(bytes[i + 2])
        == 117 && lower_byte(bytes[i + 3]) == 110 && lower_byte(bytes[i + 4]) == 100
        && lower_byte(bytes[i + 5]) == 97 && lower_byte(bytes[i + 6]) == 114 && lower_byte(
        bytes[i + 7],
    ) == 121
}

fn type_at(bytes: &[u8], i: usize) -> (res: bool)
    requires
        i <= bytes@.len(),
    ensures
        res == type_first(bytes@.skip(i as int)),
{
    if bytes.len() - i < 12 {
        return false;
    }
    lower_byte(bytes[i]) == 99 && lower_byte(bytes[i + 1]) == 111 && lower_byte(bytes[i + 2])
        == 110 && lower_byte(bytes[i + 3]) == 116 && lower_byte(bytes[i + 4]) == 101
        && lower_byte(bytes[i + 5]) == 110 && lower_byte(bytes[i + 6]) == 116 && lower_byte(
        bytes[i + 7],
    ) == 45 && lower_byte(bytes[i + 8]) == 116 && lower_byte(bytes[i + 9]) == 121 && lower_byte(
        bytes[i + 10],
    ) == 112 && lower_byte(bytes[i + 11]) == 101
}

fn opens_at(bytes: &[u8], i: usize) -> (res: bool)
    requires
        i <= bytes@.len(),
    ensures
        res == opens(bytes@.skip(i as int)),
{
    let mut i: usize = i;
    let ghost value = bytes@.skip(i as int);
    while i < bytes.len() && (bytes[i] == 32 || bytes[i] == 9 || bytes[i] == 13 || bytes[i] == 10)
        invariant
            i <= bytes@.len(),
            opens(value) == opens(bytes@.skip(i as int)),
        decreases bytes@.len() - i,
    {
        assert(bytes@.skip(i as int).drop_first() =~= bytes@.skip(i + 1));
        i = i + 1;
    }
    if i >= bytes.len() {
        return false;
    }
    let b = bytes[i];
    if 33 <= b && b <= 126 {
        b == 61 || lower_byte(b) == 109 && bytes.len() - i > 1 && (lower_byte(bytes[i + 1]) == 117
            || bytes[i + 1] == 61)
    } else {
        true
    }
}

fn hidden_at(bytes: &[u8], i: usize, word: bool) -> (res: bool)
    requires
        i < bytes@.len(),
        word == coded(bytes@.skip(i as int)),
    ensures
        res == hidden_first(bytes@.skip(i as int)),
{
    if !(word && bytes.len() - i > 12 && type_at(bytes, i) && bytes[i + 12] == 58) {
        return false;
    }
    assert(bytes@.skip(i as int).skip(13) =~= bytes@.skip(i + 13));
    opens_at(bytes, i + 13)
}

/// Bounds the nesting of a message before the recursive parser sees it.
pub fn check_boundaries(bytes: &[u8]) -> (res: Result<(), Error>)
    ensures
        seen(res) == if bounded(bytes@) {
            Ok(())
        } else {
            Err(ErrorView::MimeBoundaries)
        },
{
    let mut plain: usize = 0;
    let mut encoded: usize = 0;
    let mut word = false;
    let mut i: usize = bytes.len();
    while i > 0
        invariant
            i <= bytes@.len(),
            plain <= 32,
            encoded <= 256,
            plain == boundaries(bytes@.skip(i as int)),
            encoded == hidden(bytes@.skip(i as int)),
            word == coded(bytes@.skip(i as int)),
        decreases i,
    {
        i = i - 1;
        assert(bytes@.skip(i as int).drop_first() =~= bytes@.skip(i + 1));
        if bytes.len() - i < 2 {
            word = false;
        } else if bytes[i] == 61 && bytes[i + 1] == 63 {
            word = true;
        } else if bytes[i] == 10 && bytes[i + 1] != 32 && bytes[i + 1] != 9 {
            word = false;
        }
        if boundary_at(bytes, i) {
            plain = plain + 1;
        }
        if hidden_at(bytes, i, word) {
            encoded = encoded + 1;
        }
        if plain > 32 || encoded > 256 {
            proof {
                lemma_rest_holds_fewer(bytes@, i as int);
            }
            return Err(Error::MimeBoundaries);
        }
    }
    assert(bytes@.skip(0) =~= bytes@);
    Ok(())
}

/// The message that the bytes hold, its nesting bounded first.
pub open spec fn admitted(bytes: Seq<u8>) -> Result<MailView, ErrorView> {
    if !bounded(bytes) {
        Err(ErrorView::MimeBoundaries)
    } else {
        match mail_of(bytes) {
            Err(words) => Err(ErrorView::Outside(words)),
            Ok(mail) => Ok(mail),
        }
    }
}

/// The message that the bytes hold, its nesting bounded first.
pub fn read_mail(bytes: &[u8]) -> (res: Result<Mail, Error>)
    ensures
        (match res {
            Ok(mail) => Ok(mail@),
            Err(error) => Err(error@),
        }) == admitted(bytes@),
{
    match check_boundaries(bytes) {
        Err(error) => {
            return Err(error);
        },
        Ok(()) => {},
    }
    match parse_mail(bytes) {
        Err(words) => Err(Error::Outside(words)),
        Ok(mail) => Ok(mail),
    }
}

/// What is kept of a message of the identity `id`: who sent it and about what, and its tier.
pub open spec fn organized(id: Seq<char>, mail: MailView) -> Result<OrganizedEmailView, ErrorView> {
    match read_text(mail.parts, ""@, 128_000) {
        Err(words) => Err(ErrorView::Outside(words)),
        Ok(body) => {
            let subject = or_empty(header(mail.headers, "Subject"@));
            let rank = ranked(
                lowered(subject + "\n"@ + body),
                header(mail.headers, "List-Id"@) is Some || header(
                    mail.headers,
                    "List-Unsubscribe"@,
                ) is Some,
            );
            Ok(
                OrganizedEmailView {
                    id,
                    from: or_empty(header(mail.headers, "From"@)),
                    subject,
                    tier: rank.0,
                    reason: rank.1,
                },
            )
        },
    }
}

/// The record of a message that was parsed.
pub fn organize_mail(id: String, mail: &Mail) -> (res: Result<OrganizedEmail, Error>)
    ensures
        (match res {
            Ok(record) => Ok(record@),
            Err(error) => Err(error@),
        }) == organized(id@, mail@),
{
    let subject = value_or_empty(first_value(&mail.headers, "Subject"));
    let from = value_or_empty(first_value(&mail.headers, "From"));
    let body = match text_parts(&mail.parts, 128_000) {
        Err(error) => {
            return Err(error);
        },
        Ok(body) => body,
    };
    let listed = first_value(&mail.headers, "List-Id").is_some() || first_value(
        &mail.headers,
        "List-Unsubscribe",
    ).is_some();
    let (tier, reason) = classify(subject.as_str(), body.as_str(), listed);
    Ok(OrganizedEmail { id, from, subject, tier, reason })
}

/// What comes of a message in bytes.
pub open spec fn record_of(bytes: Seq<u8>) -> Result<OrganizedEmailView, ErrorView> {
    match admitted(bytes) {
        Err(error) => Err(error),
        Ok(mail) => organized(digested(bytes), mail),
    }
}

/// The record of a message in bytes; its identity is their digest. Originals and attachments stay
/// in the mailbox.
pub fn organize(bytes: &[u8]) -> (res: Result<OrganizedEmail, Error>)
    ensures
        (match res {
            Ok(record) => Ok(record@),
            Err(error) => Err(error@),
        }) == record_of(bytes@),
{
    match read_mail(bytes) {
        Err(error) => Err(error),
        Ok(mail) => organize_mail(digest(bytes), &mail),
    }
}

/// The object that keeps the record of a message.
pub open spec fn record_name(id: Seq<char>) -> Seq<char> {
    "email-"@ + id + ".json"@
}

/// The object that keeps the record of a message in bytes.
pub fn object_name(bytes: &[u8]) -> (res: String)
    ensures
        res@ == record_name(digested(bytes@)),
{
    let mut out = "email-".to_owned();
    out.append(digest(bytes).as_str());
    out.append(".json");
    out
}

// ---------------------------------------------------------------------------
// Organizing once

/// A record and whether it is new, or why there is none.
pub open spec fn filed_as(res: Result<(OrganizedEmail, bool), Failure>) -> Result<
    (OrganizedEmailView, bool),
    FailureView,
> {
    match res {
        Ok(found) => Ok((found.0@, found.1)),
        Err(failure) => Err(failure@),
    }
}

/// Where the organizing of a message stands.
#[derive(Debug)]
pub enum OrganizeStage {
    LookingUp { bytes: Vec<u8> },
    Loading,
    Putting { record: OrganizedEmail },
    Finished,
}

pub enum OrganizeStageView {
    LookingUp { bytes: Seq<u8> },
    Loading,
    Putting { record: OrganizedEmailView },
    Finished,
}

impl View for OrganizeStage {
    type V = OrganizeStageView;

    open spec fn view(&self) -> OrganizeStageView {
        match self {
            OrganizeStage::LookingUp { bytes } => OrganizeStageView::LookingUp { bytes: bytes@ },
            OrganizeStage::Loading => OrganizeStageView::Loading,
            OrganizeStage::Putting { record } => OrganizeStageView::Putting { record: record@ },
            OrganizeStage::Finished => OrganizeStageView::Finished,
        }
    }
}

/// What the organizing of a message needs next.
#[derive(Debug)]
pub enum OrganizeNeed {
    /// Report whether this object exists.
    LookUp(String),
    /// Read the record that this object keeps.
    Load(String),
    /// Put the record in the store.
    Put { name: String, record: OrganizedEmail },
    /// Nothing more: the record, and whether it is new.
    Finish(Result<(OrganizedEmail, bool), Failure>),
}

pub enum OrganizeNeedView {
    LookUp(Seq<char>),
    Load(Seq<char>),
    Put { name: Seq<char>, record: OrganizedEmailView },
    Finish(Result<(OrganizedEmailView, bool), FailureView>),
}

impl View for OrganizeNeed {
    type V = OrganizeNeedView;

    open spec fn view(&self) -> OrganizeNeedView {
        match self {
            OrganizeNeed::LookUp(x) => OrganizeNeedView::LookUp(x@),
            OrganizeNeed::Load(x) => OrganizeNeedView::Load(x@),
            OrganizeNeed::Put { name, record } => OrganizeNeedView::Put {
                name: name@,
                record: record@,
            },
            OrganizeNeed::Finish(x) => OrganizeNeedView::Finish(filed_as(*x)),
        }
    }
}

/// What came of it.
#[derive(Debug)]
pub enum OrganizeEvent {
    Known(bool),
    Loaded(OrganizedEmail),
    /// Whether the object was new.
    Written(bool),
    Failed(Failure),
}

pub enum OrganizeEventView {
    Known(bool),
    Loaded(OrganizedEmailView),
    Written(bool),
    Failed(FailureView),
}

impl View for OrganizeEvent {
    type V = OrganizeEventView;

    open spec fn view(&self) -> OrganizeEventView {
        match self {
            OrganizeEvent::Known(x) => OrganizeEventView::Known(*x),
            OrganizeEvent::Loaded(x) => OrganizeEventView::Loaded(x@),
            OrganizeEvent::Written(x) => OrganizeEventView::Written(*x),
            OrganizeEvent::Failed(x) => OrganizeEventView::Failed(x@),
        }
    }
}

/// Where the organizing of a message stands, and what it needs next.
pub struct OrganizeTurn {
    pub stage: OrganizeStageView,
    pub need: OrganizeNeedView,
}

pub open spec fn organize_ends(
    res: Result<(OrganizedEmailView, bool), FailureView>,
) -> OrganizeTurn {
    OrganizeTurn { stage: OrganizeStageView::Finished, need: OrganizeNeedView::Finish(res) }
}

/// How the organizing of a message begins.
pub open spec fn organize_begins(bytes: Seq<u8>) -> OrganizeTurn {
    OrganizeTurn {
        stage: OrganizeStageView::LookingUp { bytes },
        need: OrganizeNeedView::LookUp(record_name(digested(bytes))),
    }
}

/// How the organizing of a message goes on after `event`: a record that is there is read back,
/// another is made and kept.
pub open spec fn organize_step(
    stage: OrganizeStageView,
    event: OrganizeEventView,
) -> OrganizeTurn {
    match (stage, event) {
        (OrganizeStageView::LookingUp { bytes }, OrganizeEventView::Known(known)) => if known {
            OrganizeTurn {
                stage: OrganizeStageView::Loading,
                need: OrganizeNeedView::Load(record_name(digested(bytes))),
            }
        } else {
            match record_of(bytes) {
                Err(error) => organize_ends(Err(FailureView::Refused(error))),
                Ok(record) => OrganizeTurn {
                    stage: OrganizeStageView::Putting { record },
                    need: OrganizeNeedView::Put { name: record_name(digested(bytes)), record },
                },
            }
        },
        (OrganizeStageView::Loading, OrganizeEventView::Loaded(record)) => organize_ends(
            Ok((record, false)),
        ),
        (OrganizeStageView::Putting { record }, OrganizeEventView::Written(fresh)) => organize_ends(
            Ok((record, fresh)),
        ),
        (_, OrganizeEventView::Failed(failure)) => organize_ends(Err(failure)),
        _ => organize_ends(Err(FailureView::Refused(ErrorView::Unexpected))),
    }
}

/// The organizing of a message under way.
#[derive(Debug)]
pub struct Organizing {
    stage: OrganizeStage,
}

impl Organizing {
    pub closed spec fn stage(&self) -> OrganizeStageView {
        self.stage@
    }

    fn at(stage: OrganizeStage, need: OrganizeNeed) -> (res: (Organizing, OrganizeNeed))
        ensures
            res.0.stage() == stage@,
            res.1 == need,
    {
        (Organizing { stage }, need)
    }

    fn end(res: Result<(OrganizedEmail, bool), Failure>) -> (out: (Organizing, OrganizeNeed))
        ensures
            (OrganizeTurn { stage: out.0.stage(), need: out.1@ }) == organize_ends(filed_as(res)),
    {
        Organizing::at(OrganizeStage::Finished, OrganizeNeed::Finish(res))
    }

    /// Goes on with the organizing of a message after `event`.
    pub fn next(self, event: OrganizeEvent) -> (res: (Organizing, OrganizeNeed))
        ensures
            (OrganizeTurn { stage: res.0.stage(), need: res.1@ }) == organize_step(
                self.stage(),
                event@,
            ),
    {
        match (self.stage, event) {
            (OrganizeStage::LookingUp { bytes }, OrganizeEvent::Known(known)) => {
                let name = object_name(bytes.as_slice());
                if known {
                    Organizing::at(OrganizeStage::Loading, OrganizeNeed::Load(name))
                } else {
                    match organize(bytes.as_slice()) {
                        Err(error) => Organizing::end(Err(Failure::Refused(error))),
                        Ok(record) => Organizing::at(
                            OrganizeStage::Putting { record: record.clone() },
                            OrganizeNeed::Put { name, record },
                        ),
                    }
                }
            },
            (OrganizeStage::Loading, OrganizeEvent::Loaded(record)) => Organizing::end(
                Ok((record, false)),
            ),
            (OrganizeStage::Putting { record }, OrganizeEvent::Written(fresh)) => Organizing::end(
                Ok((record, fresh)),
            ),
            (_, OrganizeEvent::Failed(failure)) => Organizing::end(Err(failure)),
            _ => Organizing::end(Err(Failure::Refused(Error::Unexpected))),
        }
    }
}

/// Begins to organize a message, unless it was organized before.
pub fn organize_once(bytes: Vec<u8>) -> (res: (Organizing, OrganizeNeed))
    ensures
        (OrganizeTurn { stage: res.0.stage(), need: res.1@ }) == organize_begins(bytes@),
{
    let name = object_name(bytes.as_slice());
    Organizing::at(OrganizeStage::LookingUp { bytes }, OrganizeNeed::LookUp(name))
}

/// A store that does what it is asked: records by the names of their objects. A record that is
/// there is never replaced.
pub open spec fn records_answer(
    records: Map<Seq<char>, OrganizedEmailView>,
    need: OrganizeNeedView,
) -> (Map<Seq<char>, OrganizedEmailView>, OrganizeEventView) {
    match need {
        OrganizeNeedView::LookUp(name) => (
            records,
            OrganizeEventView::Known(records.contains_key(name)),
        ),
        OrganizeNeedView::Load(name) => if records.contains_key(name) {
            (records, OrganizeEventView::Loaded(records[name]))
        } else {
            (records, OrganizeEventView::Failed(FailureView::Refused(ErrorView::Unexpected)))
        },
        OrganizeNeedView::Put { name, record } => if records.contains_key(name) {
            (records, OrganizeEventView::Written(false))
        } else {
            (records.insert(name, record), OrganizeEventView::Written(true))
        },
        OrganizeNeedView::Finish(_) => (
            records,
            OrganizeEventView::Failed(FailureView::Refused(ErrorView::Unexpected)),
        ),
    }
}

/// The store and the result after a message was organized in `steps` steps at most.
pub open spec fn organized_in(
    records: Map<Seq<char>, OrganizedEmailView>,
    turn: OrganizeTurn,
    steps: nat,
) -> (
    Map<Seq<char>, OrganizedEmailView>,
    Option<Result<(OrganizedEmailView, bool), FailureView>>,
)
    decreases steps,
{
    match turn.need {
        OrganizeNeedView::Finish(res) => (records, Some(res)),
        need => if steps == 0 {
            (records, None)
        } else {
            let answer = records_answer(records, need);
            organized_in(answer.0, organize_step(turn.stage, answer.1), (steps - 1) as nat)
        },
    }
}

/// The same bytes are organized once. The first time the record is made from them, its identity
/// their digest, and kept; from then on it is read back as it was kept, it is not new, and the
/// store stays as it is. A message that cannot be read changes nothing.
pub proof fn law_organized_once(records: Map<Seq<char>, OrganizedEmailView>, bytes: Seq<u8>)
    ensures
        ({
            let name = record_name(digested(bytes));
            let first = organized_in(records, organize_begins(bytes), 2);
            let second = organized_in(first.0, organize_begins(bytes), 2);
            &&& records.contains_key(name) ==> first == (
                records,
                Some(Ok::<(OrganizedEmailView, bool), FailureView>((records[name], false))),
            )
            &&& !records.contains_key(name) ==> first == (match record_of(bytes) {
                Ok(record) => (
                    records.insert(name, record),
                    Some(Ok::<(OrganizedEmailView, bool), FailureView>((record, true))),
                ),
                Err(error) => (records, Some(Err(FailureView::Refused(error)))),
            })
            &&& record_of(bytes) is Ok ==> record_of(bytes)->Ok_0.id == digested(bytes)
            &&& first.1->0 is Ok ==> second == (
                first.0,
                Some(
                    Ok::<(OrganizedEmailView, bool), FailureView>((first.1->0->Ok_0.0, false)),
                ),
            )
        }),
{
    reveal_with_fuel(organized_in, 4);
}

/// The record of a message that is new; of another there is nothing to report.
pub fn new_record(found: (OrganizedEmail, bool)) -> (res: Option<OrganizedEmail>)
    ensures
        (match res {
            Some(record) => Some(record@),
            None => None,
        }) == if found.1 {
            Some(found.0@)
        } else {
            None
        },
{
    if found.1 {
        Some(found.0)
    } else {
        None
    }
}

// ---------------------------------------------------------------------------
// Scanning

/// A place in a mailbox, kept between ticks: it bounds both work and memory.
#[derive(Debug)]
pub struct MaildirScanner {
    open: bool,
    directory: usize,
}

/// What to do next in a scan.
#[derive(Debug)]
pub enum ScanAction {
    /// Open this directory of the mailbox, if it is there.
    Open(String),
    /// Take the next entry of the open directory.
    Next,
    /// Organize the entry that was taken.
    Organize,
    Finish(Result<(), Error>),
}

pub enum ScanActionView {
    Open(Seq<char>),
    Next,
    Organize,
    Finish(Result<(), ErrorView>),
}

impl View for ScanAction {
    type V = ScanActionView;

    open spec fn view(&self) -> ScanActionView {
        match self {
            ScanAction::Open(name) => ScanActionView::Open(name@),
            ScanAction::Next => ScanActionView::Next,
            ScanAction::Organize => ScanActionView::Organize,
            ScanAction::Finish(res) => ScanActionView::Finish(seen(*res)),
        }
    }
}

/// What came of it.
#[derive(Debug)]
pub enum ScanEvent {
    Missing,
    Opened,
    /// An entry, and whether it is a regular file.
    Entry(bool),
    End,
    Organized,
    Failed(Error),
}

/// Where a scan stands: in an open directory, and which directory comes next.
pub struct Place {
    pub open: bool,
    pub directory: nat,
}

/// How a scan goes on with `left` entries to examine: the mailbox's two directories are gone
/// through in turn, and a scan ends behind the second.
pub open spec fn scan_on(place: Place, left: nat) -> (Place, ScanActionView) {
    if left == 0 {
        (place, ScanActionView::Finish(Ok(())))
    } else if place.open {
        (place, ScanActionView::Next)
    } else if place.directory >= 2 {
        (Place { open: false, directory: 0 }, ScanActionView::Finish(Ok(())))
    } else {
        (
            Place { open: false, directory: place.directory + 1 },
            ScanActionView::Open(
                if place.directory == 0 {
                    "new"@
                } else {
                    "cur"@
                },
            ),
        )
    }
}

/// How a scan goes on after `event`: the place, how many entries may still be examined, and what
/// to do next.
pub open spec fn scan_step(place: Place, left: nat, event: ScanEvent) -> (
    (Place, ScanActionView),
    nat,
) {
    match event {
        ScanEvent::Missing | ScanEvent::Organized => (scan_on(place, left), left),
        ScanEvent::Opened => (scan_on(Place { open: true, ..place }, left), left),
        ScanEvent::End => (scan_on(Place { open: false, ..place }, left), left),
        ScanEvent::Entry(regular) => {
            let less = if left > 0 {
                (left - 1) as nat
            } else {
                0
            };
            if regular {
                ((place, ScanActionView::Organize), less)
            } else {
                (scan_on(place, less), less)
            }
        },
        ScanEvent::Failed(error) => ((place, ScanActionView::Finish(Err(error@))), left),
    }
}

impl MaildirScanner {
    pub closed spec fn place(&self) -> Place {
        Place { open: self.open, directory: self.directory as nat }
    }

    /// The start of a mailbox.
    pub fn new() -> (res: MaildirScanner)
        ensures
            res.place() == (Place { open: false, directory: 0 }),
    {
        MaildirScanner { open: false, directory: 0 }
    }

    /// Begins or continues a scan of up to `left` entries.
    pub fn scan(&mut self, left: usize) -> (res: ScanAction)
        ensures
            (final(self).place(), res@) == scan_on(old(self).place(), left as nat),
    {
        if left == 0 {
            ScanAction::Finish(Ok(()))
        } else if self.open {
            ScanAction::Next
        } else if self.directory >= 2 {
            self.directory = 0;
            ScanAction::Finish(Ok(()))
        } else {
            let name = if self.directory == 0 {
                "new".to_owned()
            } else {
                "cur".to_owned()
            };
            self.directory = self.directory + 1;
            ScanAction::Open(name)
        }
    }

    /// Goes on after `event` with up to `left` entries still to examine.
    pub fn next(&mut self, left: usize, event: ScanEvent) -> (res: (ScanAction, usize))
        ensures
            ((final(self).place(), res.0@), res.1 as nat) == scan_step(
                old(self).place(),
                left as nat,
                event,
            ),
    {
        match event {
            ScanEvent::Missing | ScanEvent::Organized => (self.scan(left), left),
            ScanEvent::Opened => {
                self.open = true;
                (self.scan(left), left)
            },
            ScanEvent::End => {
                self.open = false;
                (self.scan(left), left)
            },
            ScanEvent::Entry(regular) => {
                let less: usize = if left > 0 {
                    left - 1
                } else {
                    0
                };
                if regular {
                    (ScanAction::Organize, less)
                } else {
                    (self.scan(less), less)
                }
            },
            ScanEvent::Failed(error) => (ScanAction::Finish(Err(error)), left),
        }
    }
}

/// Every entry that is taken uses up one of those that may be examined, so that a scan never
/// organizes more than its batch.
pub proof fn law_scan_is_bounded(place: Place, left: nat, event: ScanEvent)
    ensures
        scan_step(place, left, event).1 <= left,
        event is Entry && left > 0 ==> scan_step(place, left, event).1 == left - 1,
        scan_step(place, left, event).0.1 is Next ==> scan_step(place, left, event).1 > 0,
{
}

/// What a message says decides its tier, by the phrases of each: the most serious that occurs in
/// its subject or its text wins, and a newsletter is news if nothing more serious is said.
pub proof fn law_phrases(text: Seq<char>, newsletter: bool)
    ensures
        ({
            let critical = {
                ||| occurs(text, "bank statement"@)
                ||| occurs(text, "financial statement"@)
                ||| occurs(text, "financial record"@)
                ||| occurs(text, "tax return"@)
                ||| occurs(text, "tax document"@)
                ||| occurs(text, "w-2"@)
                ||| occurs(text, "1099"@)
                ||| occurs(text, "fraud alert"@)
                ||| occurs(text, "security breach"@)
                ||| occurs(text, "account compromised"@)
                ||| occurs(text, "legal notice"@)
                ||| occurs(text, "court summons"@)
                ||| occurs(text, "medical emergency"@)
                ||| occurs(text, "evacuation"@)
                ||| occurs(text, "mortgage statement"@)
                ||| occurs(text, "investment statement"@)
                ||| occurs(text, "urgent action required"@)
            };
            let important = {
                ||| occurs(text, "verification code"@)
                ||| occurs(text, "security code"@)
                ||| occurs(text, "one-time"@)
                ||| occurs(text, "authentication"@)
                ||| occurs(text, "sign-in"@)
                ||| occurs(text, "sign in"@)
                ||| occurs(text, "login"@)
                ||| occurs(text, "password reset"@)
                ||| occurs(text, "receipt"@)
                ||| occurs(text, "invoice"@)
                ||| occurs(text, "order confirmation"@)
                ||| occurs(text, "payment confirmation"@)
                ||| occurs(text, "appointment"@)
                ||| occurs(text, "boarding pass"@)
                ||| occurs(text, "verify your email"@)
            };
            let news = newsletter || {
                ||| occurs(text, "newsletter"@)
                ||| occurs(text, "digest"@)
                ||| occurs(text, "aerospace news"@)
                ||| occurs(text, "tech news"@)
                ||| occurs(text, "technology news"@)
                ||| occurs(text, "space news"@)
                ||| occurs(text, "weekly roundup"@)
                ||| occurs(text, "unsubscribe"@)
            };
            let tier = ranked(text, newsletter).0;
            &&& critical ==> tier == Tier::Critical
            &&& !critical && important ==> tier == Tier::Important
            &&& !critical && !important && news ==> tier == Tier::News
            &&& !critical && !important && !news ==> tier == Tier::Other
        }),
{
    law_precedence(text, newsletter);
    lemma_phrases(text);
}

proof fn lemma_phrases(text: Seq<char>)
    ensures
        mentions(text, critical_terms()) <==> ({
                ||| occurs(text, "bank statement"@)
                ||| occurs(text, "financial statement"@)
                ||| occurs(text, "financial record"@)
                ||| occurs(text, "tax return"@)
                ||| occurs(text, "tax document"@)
                ||| occurs(text, "w-2"@)
                ||| occurs(text, "1099"@)
                ||| occurs(text, "fraud alert"@)
                ||| occurs(text, "security breach"@)
                ||| occurs(text, "account compromised"@)
                ||| occurs(text, "legal notice"@)
                ||| occurs(text, "court summons"@)
                ||| occurs(text, "medical emergency"@)
                ||| occurs(text, "evacuation"@)
                ||| occurs(text, "mortgage statement"@)
                ||| occurs(text, "investment statement"@)
                ||| occurs(text, "urgent action required"@)
            }),
        mentions(text, important_terms()) <==> ({
                ||| occurs(text, "verification code"@)
                ||| occurs(text, "security code"@)
                ||| occurs(text, "one-time"@)
                ||| occurs(text, "authentication"@)
                ||| occurs(text, "sign-in"@)
                ||| occurs(text, "sign in"@)
                ||| occurs(text, "login"@)
                ||| occurs(text, "password reset"@)
                ||| occurs(text, "receipt"@)
                ||| occurs(text, "invoice"@)
                ||| occurs(text, "order confirmation"@)
                ||| occurs(text, "payment confirmation"@)
                ||| occurs(text, "appointment"@)
                ||| occurs(text, "boarding pass"@)
                ||| occurs(text, "verify your email"@)
            }),
        mentions(text, news_terms()) <==> ({
                ||| occurs(text, "newsletter"@)
                ||| occurs(text, "digest"@)
                ||| occurs(text, "aerospace news"@)
                ||| occurs(text, "tech news"@)
                ||| occurs(text, "technology news"@)
                ||| occurs(text, "space news"@)
                ||| occurs(text, "weekly roundup"@)
                ||| occurs(text, "unsubscribe"@)
            }),
{
    assert(critical_terms()[0] == "bank statement"@);
    assert(critical_terms()[1] == "financial statement"@);
    assert(critical_terms()[2] == "financial record"@);
    assert(critical_terms()[3] == "tax return"@);
    assert(critical_terms()[4] == "tax document"@);
    assert(critical_terms()[5] == "w-2"@);
    assert(critical_terms()[6] == "1099"@);
    assert(critical_terms()[7] == "fraud alert"@);
    assert(critical_terms()[8] == "security breach"@);
    assert(critical_terms()[9] == "account compromised"@);
    assert(critical_terms()[10] == "legal notice"@);
    assert(critical_terms()[11] == "court summons"@);
    assert(critical_terms()[12] == "medical emergency"@);
    assert(critical_terms()[13] == "evacuation"@);
    assert(critical_terms()[14] == "mortgage statement"@);
    assert(critical_terms()[15] == "investment statement"@);
    assert(critical_terms()[16] == "urgent action required"@);
    assert(important_terms()[0] == "verification code"@);
    assert(important_terms()[1] == "security code"@);
    assert(important_terms()[2] == "one-time"@);
    assert(important_terms()[3] == "authentication"@);
    assert(important_terms()[4] == "sign-in"@);
    assert(important_terms()[5] == "sign in"@);
    assert(important_terms()[6] == "login"@);
    assert(important_terms()[7] == "password reset"@);
    assert(important_terms()[8] == "receipt"@);
    assert(important_terms()[9] == "invoice"@);
    assert(important_terms()[10] == "order confirmation"@);
    assert(important_terms()[11] == "payment confirmation"@);
    assert(important_terms()[12] == "appointment"@);
    assert(important_terms()[13] == "boarding pass"@);
    assert(important_terms()[14] == "verify your email"@);
    assert(news_terms()[0] == "newsletter"@);
    assert(news_terms()[1] == "digest"@);
    assert(news_terms()[2] == "aerospace news"@);
    assert(news_terms()[3] == "tech news"@);
    assert(news_terms()[4] == "technology news"@);
    assert(news_terms()[5] == "space news"@);
    assert(news_terms()[6] == "weekly roundup"@);
    assert(news_terms()[7] == "unsubscribe"@);
}

/// The reason of a tier names the phrase that was found.
pub proof fn law_reason(text: Seq<char>, newsletter: bool)
    ensures
        ({
            let (tier, reason) = ranked(text, newsletter);
            let lead = "matched phrase: "@;
            &&& tier == Tier::Critical || tier == Tier::Important ==> begins(reason, lead)
                && occurs(text, reason.skip(lead.len() as int))
            &&& tier == Tier::News ==> reason == "List-Id or List-Unsubscribe header"@ || (begins(
                reason,
                lead,
            ) && occurs(text, reason.skip(lead.len() as int)))
            &&& tier == Tier::Other ==> reason
                == "no higher-priority rule matched; review if needed"@
        }),
{
    lemma_found_term(text, critical_terms());
    lemma_found_term(text, important_terms());
    lemma_found_term(text, news_terms());
}

proof fn lemma_found_term(text: Seq<char>, terms: Seq<Seq<char>>)
    ensures
        first_term(text, terms) is Some ==> ({
            let term = first_term(text, terms)->0;
            let lead = "matched phrase: "@;
            &&& occurs(text, term)
            &&& begins(lead + term, lead)
            &&& (lead + term).skip(lead.len() as int) == term
        }),
    decreases terms.len(),
{
    if terms.len() > 0 {
        lemma_found_term(text, terms.drop_first());
        if first_term(text, terms) is Some {
            let term = first_term(text, terms)->0;
            let lead = "matched phrase: "@;
            assert((lead + term).subrange(0, lead.len() as int) =~= lead);
            assert((lead + term).skip(lead.len() as int) =~= term);
        }
    }
}

/// The text of a message is read part by part: behind what the parts before it gave, a part of
/// text that is no attachment and holds no further parts adds its own words, as many as there is
/// room for, and any other part adds nothing.
pub proof fn law_next_part(parts: Seq<PartView>, part: PartView, room: nat)
    requires
        read_text(parts, ""@, room) is Ok,
    ensures
        ({
            let before = read_text(parts, ""@, room)->Ok_0;
            let after = read_text(parts.push(part), ""@, room);
            let read = part.leaf && begins(part.mimetype, "text/"@) && !part.attachment;
            &&& size(before) <= room
            &&& !read ==> after == Ok::<Seq<char>, Seq<char>>(before)
            &&& size(before) == room ==> after == Ok::<Seq<char>, Seq<char>>(before)
            &&& read && size(before) < room && part.body is Err ==> after == Err::<
                Seq<char>,
                Seq<char>,
            >(part.body->Err_0)
            &&& read && part.body is Ok && size(before) + size(part.body->Ok_0) <= room ==> after
                == Ok::<Seq<char>, Seq<char>>(before + part.body->Ok_0)
            &&& read && part.body is Ok && size(before) + size(part.body->Ok_0) > room ==> after is Ok
                && begins(after->Ok_0, before) && size(after->Ok_0) <= room && after->Ok_0 == before
                + clipped(part.body->Ok_0, (room - size(before)) as nat)
        }),
{
    reveal_strlit("");
    assert(size(""@) == 0) by {
        lemma_size_len(""@);
    }
    lemma_next_part(parts, part, ""@, room);
    let before = read_text(parts, ""@, room)->Ok_0;
    assert(before.subrange(0, before.len() as int) =~= before);
    if part.body is Ok {
        let body = part.body->Ok_0;
        law_clipped(body, (room - size(before)) as nat);
        let taken = clipped(body, (room - size(before)) as nat);
        lemma_size_concat(before, taken);
        assert((before + taken).subrange(0, before.len() as int) =~= before);
        lemma_size_len(body);
        if size(body) == 0 {
            assert(before + body =~= before);
        }
    }
}

proof fn lemma_next_part(parts: Seq<PartView>, part: PartView, out: Seq<char>, room: nat)
    requires
        read_text(parts, out, room) is Ok,
    ensures
        ({
            let before = read_text(parts, out, room)->Ok_0;
            &&& size(out) <= size(before) <= size(out) + room
            &&& read_text(parts.push(part), out, room) == (if size(before) == size(out) + room
                || !readable(part) {
                Ok::<Seq<char>, Seq<char>>(before)
            } else {
                match part.body {
                    Err(error) => Err(error),
                    Ok(body) => Ok(
                        before + clipped(body, (size(out) + room - size(before)) as nat),
                    ),
                }
            })
        }),
    decreases parts.len(),
{
    let all = parts.push(part);
    if parts.len() == 0 {
        assert(all[0] == part);
        assert(all.drop_first() =~= Seq::<PartView>::empty());
        if room > 0 && readable(part) && part.body is Ok {
            let taken = clipped(part.body->Ok_0, room);
            assert(read_text(all.drop_first(), out + taken, (room - size(taken)) as nat) == Ok::<
                Seq<char>,
                Seq<char>,
            >(out + taken));
        } else if room > 0 && !readable(part) {
            assert(read_text(all.drop_first(), out, room) == Ok::<Seq<char>, Seq<char>>(out));
        }
    } else if room > 0 {
        assert(all[0] == parts[0]);
        assert(all.drop_first() =~= parts.drop_first().push(part));
        if readable(parts[0]) {
            let taken = clipped(parts[0].body->Ok_0, room);
            law_clipped(parts[0].body->Ok_0, room);
            lemma_size_concat(out, taken);
            lemma_next_part(
                parts.drop_first(),
                part,
                out + taken,
                (room - size(taken)) as nat,
            );
        } else {
            lemma_next_part(parts.drop_first(), part, out, room);
        }
    }
}

/// What is read stays read: the words of the parts so far begin the words of all parts.
pub proof fn law_parts_in_order(parts: Seq<PartView>, more: Seq<PartView>, room: nat)
    requires
        read_text(parts + more, ""@, room) is Ok,
    ensures
        read_text(parts, ""@, room) is Ok,
        begins(read_text(parts + more, ""@, room)->Ok_0, read_text(parts, ""@, room)->Ok_0),
    decreases more.len(),
{
    if more.len() == 0 {
        assert(parts + more =~= parts);
        let all = read_text(parts, ""@, room)->Ok_0;
        assert(all.subrange(0, all.len() as int) =~= all);
    } else {
        let fewer = parts + more.drop_last();
        assert(parts + more =~= fewer.push(more.last()));
        lemma_fewer_parts(fewer, more.last(), ""@, room);
        law_parts_in_order(parts, more.drop_last(), room);
        lemma_next_part(fewer, more.last(), ""@, room);
        let first = read_text(parts, ""@, room)->Ok_0;
        let before = read_text(fewer, ""@, room)->Ok_0;
        let after = read_text(parts + more, ""@, room)->Ok_0;
        assert(after.subrange(0, first.len() as int) =~= before.subrange(0, first.len() as int));
    }
}

proof fn lemma_fewer_parts(parts: Seq<PartView>, part: PartView, out: Seq<char>, room: nat)
    requires
        read_text(parts.push(part), out, room) is Ok,
    ensures
        read_text(parts, out, room) is Ok,
    decreases parts.len(),
{
    let all = parts.push(part);
    if parts.len() > 0 && room > 0 {
        assert(all[0] == parts[0]);
        assert(all.drop_first() =~= parts.drop_first().push(part));
        if readable(parts[0]) {
            let taken = clipped(parts[0].body->Ok_0, room);
            lemma_fewer_parts(
                parts.drop_first(),
                part,
                out + taken,
                (room - size(taken)) as nat,
            );
        } else {
            lemma_fewer_parts(parts.drop_first(), part, out, room);
        }
    }
}

/// The record of a message rests on all that it says: its subject and the text of its readable
/// parts, up to 128,000 bytes of them, are ranked together, and a list's header makes it a
/// newsletter. The record names the message, its sender and its subject.
pub proof fn law_record(bytes: Seq<u8>)
    requires
        record_of(bytes) is Ok,
    ensures
        mail_of(bytes) is Ok,
        ({
            let mail = mail_of(bytes)->Ok_0;
            let record = record_of(bytes)->Ok_0;
            let body = read_text(mail.parts, ""@, 128_000);
            let listed = header(mail.headers, "List-Id"@) is Some || header(
                mail.headers,
                "List-Unsubscribe"@,
            ) is Some;
            &&& body is Ok
            &&& record.id == digested(bytes)
            &&& record.tier == ranked(lowered(record.subject + "\n"@ + body->Ok_0), listed).0
            &&& record.reason == ranked(lowered(record.subject + "\n"@ + body->Ok_0), listed).1
            &&& header(mail.headers, "Subject"@) is Some ==> record.subject == header(
                mail.headers,
                "Subject"@,
            )->0
            &&& header(mail.headers, "Subject"@) is None ==> record.subject.len() == 0
            &&& header(mail.headers, "From"@) is Some ==> record.from == header(
                mail.headers,
                "From"@,
            )->0
            &&& header(mail.headers, "From"@) is None ==> record.from.len() == 0
        }),
{
    reveal_strlit("");
}

/// A message that can be read is recorded: only one of too many nested parts, one that is no
/// message and one whose text cannot be decoded are refused.
pub proof fn law_recorded(bytes: Seq<u8>)
    ensures
        record_of(bytes) is Ok <==> boundaries(bytes) <= 32 && hidden(bytes) <= 256 && mail_of(
            bytes,
        ) is Ok && read_text(mail_of(bytes)->Ok_0.parts, ""@, 128_000) is Ok,
{
}

/// A header is the first of its name, in letters of either case.
pub proof fn law_header(headers: Seq<(Seq<char>, Seq<char>)>, key: Seq<char>, i: int)
    requires
        0 <= i < headers.len(),
        same_letters(headers[i].0, key),
        forall|j: int| 0 <= j < i ==> !same_letters((#[trigger] headers[j]).0, key),
    ensures
        header(headers, key) == Some(headers[i].1),
    decreases headers.len(),
{
    if i > 0 {
        assert(!same_letters(headers[0].0, key));
        let rest = headers.drop_first();
        assert forall|j: int| 0 <= j < i - 1 implies !same_letters((#[trigger] rest[j]).0, key) by {
            assert(rest[j] == headers[j + 1]);
        }
        law_header(rest, key, i - 1);
    }
}

/// A header that no line names is not there.
pub proof fn law_no_header(headers: Seq<(Seq<char>, Seq<char>)>, key: Seq<char>)
    requires
        forall|j: int| 0 <= j < headers.len() ==> !same_letters((#[trigger] headers[j]).0, key),
    ensures
        header(headers, key) is None,
    decreases headers.len(),
{
    if headers.len() > 0 {
        let rest = headers.drop_first();
        assert forall|j: int| 0 <= j < rest.len() implies !same_letters((#[trigger] rest[j]).0, key) by {
            assert(rest[j] == headers[j + 1]);
        }
        law_no_header(rest, key);
    }
}

/// A phrase in the text of a readable part decides the record: where the message is in ASCII and
/// the parts up to that one fit, a critical phrase in it, in letters of either case, makes the
/// message critical; an important one makes it important unless a critical one is said anywhere;
/// and one of news makes it news unless a more serious one is said anywhere.
pub proof fn law_part_decides(
    bytes: Seq<u8>,
    parts: Seq<PartView>,
    part: PartView,
    more: Seq<PartView>,
)
    requires
        record_of(bytes) is Ok,
        mail_of(bytes)->Ok_0.parts == parts.push(part) + more,
        part.leaf,
        begins(part.mimetype, "text/"@),
        !part.attachment,
        part.body is Ok,
        read_text(parts, ""@, 128_000) is Ok,
        size(read_text(parts, ""@, 128_000)->Ok_0) + size(part.body->Ok_0) <= 128_000,
        ascii(record_of(bytes)->Ok_0.subject),
        ascii(read_text(mail_of(bytes)->Ok_0.parts, ""@, 128_000)->Ok_0),
    ensures
        ({
            let text = lowered(part.body->Ok_0);
            let record = record_of(bytes)->Ok_0;
            let critical = {
                ||| occurs(text, "bank statement"@)
                ||| occurs(text, "financial statement"@)
                ||| occurs(text, "financial record"@)
                ||| occurs(text, "tax return"@)
                ||| occurs(text, "tax document"@)
                ||| occurs(text, "w-2"@)
                ||| occurs(text, "1099"@)
                ||| occurs(text, "fraud alert"@)
                ||| occurs(text, "security breach"@)
                ||| occurs(text, "account compromised"@)
                ||| occurs(text, "legal notice"@)
                ||| occurs(text, "court summons"@)
                ||| occurs(text, "medical emergency"@)
                ||| occurs(text, "evacuation"@)
                ||| occurs(text, "mortgage statement"@)
                ||| occurs(text, "investment statement"@)
                ||| occurs(text, "urgent action required"@)
            };
            let important = {
                ||| occurs(text, "verification code"@)
                ||| occurs(text, "security code"@)
                ||| occurs(text, "one-time"@)
                ||| occurs(text, "authentication"@)
                ||| occurs(text, "sign-in"@)
                ||| occurs(text, "sign in"@)
                ||| occurs(text, "login"@)
                ||| occurs(text, "password reset"@)
                ||| occurs(text, "receipt"@)
                ||| occurs(text, "invoice"@)
                ||| occurs(text, "order confirmation"@)
                ||| occurs(text, "payment confirmation"@)
                ||| occurs(text, "appointment"@)
                ||| occurs(text, "boarding pass"@)
                ||| occurs(text, "verify your email"@)
            };
            let news = {
                ||| occurs(text, "newsletter"@)
                ||| occurs(text, "digest"@)
                ||| occurs(text, "aerospace news"@)
                ||| occurs(text, "tech news"@)
                ||| occurs(text, "technology news"@)
                ||| occurs(text, "space news"@)
                ||| occurs(text, "weekly roundup"@)
                ||| occurs(text, "unsubscribe"@)
            };
            &&& critical ==> record.tier == Tier::Critical
            &&& important ==> record.tier == Tier::Critical || record.tier == Tier::Important
            &&& news ==> record.tier != Tier::Other
        }),
{
    let mail = mail_of(bytes)->Ok_0;
    let record = record_of(bytes)->Ok_0;
    let words = part.body->Ok_0;
    let text = lowered(words);
    let before = read_text(parts, ""@, 128_000)->Ok_0;
    law_parts_in_order(parts.push(part), more, 128_000);
    law_next_part(parts, part, 128_000);
    let through = before + words;
    let body = read_text(mail.parts, ""@, 128_000)->Ok_0;
    let after = body.skip(through.len() as int);
    assert(body =~= through + after) by {
        assert(body.subrange(0, through.len() as int) =~= through);
    }
    let lead = record.subject + "\n"@ + before;
    let whole = record.subject + "\n"@ + body;
    assert(whole =~= lead + words + after);
    reveal_strlit("\n");
    assert(ascii(whole)) by {
        assert forall|i: int| 0 <= i < whole.len() implies #[trigger] whole[i] <= '\x7f' by {
            if i < record.subject.len() {
                assert(whole[i] == record.subject[i]);
            } else if i > record.subject.len() {
                assert(whole[i] == body[i - record.subject.len() - 1]);
            }
        }
    }
    assert(ascii(lead + words)) by {
        assert forall|i: int| 0 <= i < (lead + words).len() implies #[trigger] (lead + words)[i]
            <= '\x7f' by {
            assert((lead + words)[i] == whole[i]);
        }
    }
    law_lowered_parts(lead + words, after);
    law_lowered_parts(lead, words);
    law_record(bytes);
    let all = lowered(whole);
    assert(all == lowered(lead) + text + lowered(after));
    lemma_inner_mentions(lowered(lead), text, lowered(after), critical_terms());
    lemma_inner_mentions(lowered(lead), text, lowered(after), important_terms());
    lemma_inner_mentions(lowered(lead), text, lowered(after), news_terms());
    lemma_phrases(text);
    let listed = header(mail.headers, "List-Id"@) is Some || header(
        mail.headers,
        "List-Unsubscribe"@,
    ) is Some;
    law_precedence(all, listed);
}

proof fn lemma_inner_mentions(
    before: Seq<char>,
    text: Seq<char>,
    after: Seq<char>,
    terms: Seq<Seq<char>>,
)
    ensures
        mentions(text, terms) ==> mentions(before + text + after, terms),
{
    if mentions(text, terms) {
        let i = choose|i: int| 0 <= i < terms.len() && occurs(text, #[trigger] terms[i]);
        let k = choose|k: int| stands_at(text, terms[i], k);
        let whole = before + text + after;
        let at = before.len() + k;
        assert(whole.subrange(at, at + terms[i].len()) =~= text.subrange(k, k + terms[i].len()));
        assert(stands_at(whole, terms[i], at));
        assert(occurs(whole, terms[i]));
    }
}

/// The mailbox is gone through in order: `new`, then `cur`, then from the beginning again. A regular
/// file is organized and counted, anything else is counted only, and a look ends when it has taken
/// as many entries as it may.
pub proof fn law_scan(place: Place, left: nat)
    requires
        left > 0,
    ensures
        place.open ==> scan_on(place, left) == (place, ScanActionView::Next),
        !place.open && place.directory == 0 ==> scan_on(place, left) == (
            Place { open: false, directory: 1 },
            ScanActionView::Open("new"@),
        ),
        !place.open && place.directory == 1 ==> scan_on(place, left) == (
            Place { open: false, directory: 2 },
            ScanActionView::Open("cur"@),
        ),
        !place.open && place.directory >= 2 ==> scan_on(place, left) == (
            Place { open: false, directory: 0 },
            ScanActionView::Finish(Ok(())),
        ),
        scan_on(place, 0) == (place, ScanActionView::Finish(Ok(()))),
        scan_step(place, left, ScanEvent::Opened) == (
            (Place { open: true, ..place }, ScanActionView::Next),
            left,
        ),
        scan_step(place, left, ScanEvent::Entry(true)) == (
            (place, ScanActionView::Organize),
            (left - 1) as nat,
        ),
        scan_step(place, left, ScanEvent::Entry(false)) == (
            scan_on(place, (left - 1) as nat),
            (left - 1) as nat,
        ),
        scan_step(place, left, ScanEvent::Organized) == (scan_on(place, left), left),
        scan_step(place, left, ScanEvent::Missing) == (scan_on(place, left), left),
        scan_step(place, left, ScanEvent::End) == (
            scan_on(Place { open: false, ..place }, left),
            left,
        ),
{
}

/// Every word for a boundary counts, in letters of either case, so that a message of many nested
/// parts is refused before it is read.
pub proof fn law_boundaries(word: Seq<u8>, rest: Seq<u8>)
    requires
        word.len() == 8,
        forall|i: int|
            0 <= i < 8 ==> #[trigger] word[i] == seq![98u8, 111, 117, 110, 100, 97, 114, 121][i]
                || word[i] == seq![66u8, 79, 85, 78, 68, 65, 82, 89][i],
    ensures
        boundaries(word + rest) >= 1 + boundaries(rest),
{
    let all = word + rest;
    assert forall|i: int| 0 <= i < 8 implies #[trigger] low(all[i]) == seq![
        98u8,
        111,
        117,
        110,
        100,
        97,
        114,
        121,
    ][i] by {
        assert(all[i] == word[i]);
    }
    assert(low(all[0]) == 98 && low(all[1]) == 111 && low(all[2]) == 117 && low(all[3]) == 110);
    assert(low(all[4]) == 100 && low(all[5]) == 97 && low(all[6]) == 114 && low(all[7]) == 121);
    assert(boundary_first(all));
    let less = all.drop_first();
    lemma_rest_holds_fewer(less, 7);
    assert(less.skip(7) =~= rest);
}

proof fn lemma_coded_at(bytes: Seq<u8>, at: int)
    requires
        0 <= at,
        at + 2 <= bytes.len(),
        bytes[at] == 61,
        bytes[at + 1] == 63,
        forall|i: int| 0 <= i < at ==> #[trigger] bytes[i] != 10,
    ensures
        coded(bytes),
    decreases at,
{
    if at > 0 {
        let less = bytes.drop_first();
        assert forall|i: int| 0 <= i < at - 1 implies #[trigger] less[i] != 10 by {
            assert(less[i] == bytes[i + 1]);
        }
        lemma_coded_at(less, at - 1);
    }
}

proof fn lemma_opens_after(blanks: Seq<u8>, value: Seq<u8>)
    requires
        forall|i: int| 0 <= i < blanks.len() ==> #[trigger] blanks[i] == 32 || blanks[i] == 9,
    ensures
        opens(blanks + value) == opens(value),
    decreases blanks.len(),
{
    let all = blanks + value;
    if blanks.len() > 0 {
        assert(all[0] == blanks[0]);
        assert(all.drop_first() =~= blanks.drop_first() + value);
        lemma_opens_after(blanks.drop_first(), value);
    } else {
        assert(all =~= value);
    }
}

proof fn lemma_rest_hides_fewer(bytes: Seq<u8>, i: int)
    requires
        0 <= i <= bytes.len(),
    ensures
        hidden(bytes.skip(i)) <= hidden(bytes),
    decreases bytes.len(),
{
    if i == 0 {
        assert(bytes.skip(0) =~= bytes);
    } else {
        lemma_rest_hides_fewer(bytes.drop_first(), i - 1);
        assert(bytes.drop_first().skip(i - 1) =~= bytes.skip(i));
    }
}

/// Every `Content-Type` whose value begins with an encoded word counts, in letters of either case
/// and with blanks before the value, so that many nested parts whose boundaries are not in plain
/// letters are refused too.
pub proof fn law_hidden_boundaries(word: Seq<u8>, blanks: Seq<u8>, rest: Seq<u8>)
    requires
        word.len() == 13,
        forall|i: int|
            0 <= i < 13 ==> #[trigger] word[i] == seq![
                99u8,
                111,
                110,
                116,
                101,
                110,
                116,
                45,
                116,
                121,
                112,
                101,
                58,
            ][i] || word[i] == seq![67u8, 79, 78, 84, 69, 78, 84, 45, 84, 89, 80, 69, 58][i],
        forall|i: int| 0 <= i < blanks.len() ==> #[trigger] blanks[i] == 32 || blanks[i] == 9,
    ensures
        hidden(word + blanks + seq![61u8, 63u8] + rest) >= 1 + hidden(rest),
{
    let value = seq![61u8, 63u8] + rest;
    let all = word + blanks + seq![61u8, 63u8] + rest;
    let at = 13 + blanks.len() as int;
    assert(all =~= word + (blanks + value));
    assert forall|i: int| 0 <= i < 13 implies #[trigger] all[i] == word[i] by {}
    assert forall|i: int| 0 <= i < at implies #[trigger] all[i] != 10 by {
        if i < 13 {
            assert(all[i] == word[i]);
        } else {
            assert(all[i] == blanks[i - 13]);
        }
    }
    lemma_coded_at(all, at);
    assert(all.skip(13) =~= blanks + value);
    lemma_opens_after(blanks, value);
    assert(opens(value));
    assert(low(all[0]) == 99 && low(all[1]) == 111 && low(all[2]) == 110 && low(all[3]) == 116);
    assert(low(all[4]) == 101 && low(all[5]) == 110 && low(all[6]) == 116 && low(all[7]) == 45);
    assert(low(all[8]) == 116 && low(all[9]) == 121 && low(all[10]) == 112 && low(all[11]) == 101);
    assert(all[12] == 58);
    assert(hidden_first(all));
    let less = all.drop_first();
    lemma_rest_hides_fewer(less, at + 1);
    assert(less.skip(at + 1) =~= rest);
}

/// The phrases of each tier, in the order in which they are looked for.
pub proof fn law_order_of_phrases()
    ensures
        critical_terms() == seq![
            "bank statement"@,
            "financial statement"@,
            "financial record"@,
            "tax return"@,
            "tax document"@,
            "w-2"@,
            "1099"@,
            "fraud alert"@,
            "security breach"@,
            "account compromised"@,
            "legal notice"@,
            "court summons"@,
            "medical emergency"@,
            "evacuation"@,
            "mortgage statement"@,
            "investment statement"@,
            "urgent action required"@,
        ],
        important_terms() == seq![
            "verification code"@,
            "security code"@,
            "one-time"@,
            "authentication"@,
            "sign-in"@,
            "sign in"@,
            "login"@,
            "password reset"@,
            "receipt"@,
            "invoice"@,
            "order confirmation"@,
            "payment confirmation"@,
            "appointment"@,
            "boarding pass"@,
            "verify your email"@,
        ],
        news_terms() == seq![
            "newsletter"@,
            "digest"@,
            "aerospace news"@,
            "tech news"@,
            "technology news"@,
            "space news"@,
            "weekly roundup"@,
            "unsubscribe"@,
        ],
{
}

/// `reason` names the first of `terms` that stands in the text.
pub open spec fn names_first(reason: Seq<char>, text: Seq<char>, terms: Seq<Seq<char>>) -> bool {
    exists|i: int|
        {
            &&& 0 <= i < terms.len()
            &&& occurs(text, #[trigger] terms[i])
            &&& reason == "matched phrase: "@ + terms[i]
            &&& forall|j: int| 0 <= j < i ==> !occurs(text, #[trigger] terms[j])
        }
}

/// The reason of a tier is the first of its phrases that stands in the text; a newsletter that says
/// none is one by its header.
pub proof fn law_first_phrase(text: Seq<char>, newsletter: bool)
    ensures
        ({
            let (tier, reason) = ranked(text, newsletter);
            &&& tier == Tier::Critical ==> names_first(reason, text, critical_terms())
            &&& tier == Tier::Important ==> names_first(reason, text, important_terms())
            &&& tier == Tier::News && mentions(text, news_terms()) ==> names_first(
                reason,
                text,
                news_terms(),
            )
            &&& tier == Tier::News && !mentions(text, news_terms()) ==> reason
                == "List-Id or List-Unsubscribe header"@
        }),
{
    lemma_names_first(text, critical_terms());
    lemma_names_first(text, important_terms());
    lemma_names_first(text, news_terms());
}

proof fn lemma_names_first(text: Seq<char>, terms: Seq<Seq<char>>)
    ensures
        first_term(text, terms) is Some ==> names_first(
            "matched phrase: "@ + first_term(text, terms)->0,
            text,
            terms,
        ),
        first_term(text, terms) is Some <==> mentions(text, terms),
    decreases terms.len(),
{
    if terms.len() > 0 {
        let rest = terms.drop_first();
        lemma_names_first(text, rest);
        if occurs(text, terms[0]) {
            assert(names_first("matched phrase: "@ + terms[0], text, terms));
        } else {
            if mentions(text, terms) {
                let i = choose|i: int| 0 <= i < terms.len() && occurs(text, #[trigger] terms[i]);
                assert(rest[i - 1] == terms[i]);
            }
            if first_term(text, rest) is Some {
                let reason = "matched phrase: "@ + first_term(text, rest)->0;
                let i = choose|i: int|
                    {
                        &&& 0 <= i < rest.len()
                        &&& occurs(text, #[trigger] rest[i])
                        &&& reason == "matched phrase: "@ + rest[i]
                        &&& forall|j: int| 0 <= j < i ==> !occurs(text, #[trigger] rest[j])
                    };
                assert(terms[i + 1] == rest[i]);
                assert forall|j: int| 0 <= j < i + 1 implies !occurs(text, #[trigger] terms[j]) by {
                    if j > 0 {
                        assert(rest[j - 1] == terms[j]);
                    }
                }
                assert(names_first(reason, text, terms));
            }
        }
    }
}

/// A message that is refused is refused for what is wrong with it, the nesting first; and what fails
/// while it is organized, or while the mailbox is gone through, is what comes of it.
pub proof fn law_refused_message(
    bytes: Seq<u8>,
    stage: OrganizeStageView,
    failure: FailureView,
    place: Place,
    left: nat,
    error: crate::error::Error,
)
    ensures
        boundaries(bytes) > 32 || hidden(bytes) > 256 ==> record_of(bytes) == Err::<
            OrganizedEmailView,
            ErrorView,
        >(ErrorView::MimeBoundaries),
        boundaries(bytes) <= 32 && hidden(bytes) <= 256 && mail_of(bytes) is Err ==> record_of(bytes)
            == Err::<OrganizedEmailView, ErrorView>(ErrorView::Outside(mail_of(bytes)->Err_0)),
        boundaries(bytes) <= 32 && hidden(bytes) <= 256 && mail_of(bytes) is Ok && read_text(
            mail_of(bytes)->Ok_0.parts,
            ""@,
            128_000,
        ) is Err ==> record_of(bytes) == Err::<OrganizedEmailView, ErrorView>(
            ErrorView::Outside(read_text(mail_of(bytes)->Ok_0.parts, ""@, 128_000)->Err_0),
        ),
        organize_step(stage, OrganizeEventView::Failed(failure)).need == OrganizeNeedView::Finish(
            Err(failure),
        ),
        scan_step(place, left, ScanEvent::Failed(error)).0 == (
            place,
            ScanActionView::Finish(Err(error@)),
        ),
{
}

} // verus!
