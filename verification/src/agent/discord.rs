//! Discord: identities, requests and replies.
//!
//! A request is an address, an authorization and parameters; the reply is a list of messages, or
//! one. Sending and receiving are left to the caller.
use crate::agent::config::DiscordConfig;
use crate::error::{seen, Error, ErrorView};
use crate::failure::read_as;
use crate::json::{
    copied, get_in, json_view, lemma_documents, or_null, text_in, text_of, text_or_null, Json,
    JsonView,
};
use crate::text::{
    all_digits, blank, byte_len, chars_of, copy_text, digit, digits, is_blank, law_stripped_end,
    lemma_numeral_value, lemma_size_len, lemma_size_push, maybe, numeral, parse_digits, same, size,
    string_of, strip_end, stripped_end, trim, trimmed, value_of, width,
};
use vstd::prelude::*;

verus! {

/// Who wrote a message, or is mentioned in it.
#[derive(Debug)]
pub struct Author {
    pub id: String,
    pub username: String,
    pub bot: bool,
}

/// A message of a channel.
#[derive(Debug)]
pub struct Message {
    pub id: String,
    pub channel_id: String,
    pub author: Author,
    pub content: String,
    pub mentions: Vec<Author>,
    pub webhook_id: Option<String>,
    pub message_reference: Option<Json>,
    pub nonce: Option<Json>,
}

pub struct AuthorView {
    pub id: Seq<char>,
    pub username: Seq<char>,
    pub bot: bool,
}

pub struct MessageView {
    pub id: Seq<char>,
    pub channel_id: Seq<char>,
    pub author: AuthorView,
    pub content: Seq<char>,
    pub mentions: Seq<AuthorView>,
    pub webhook_id: Option<Seq<char>>,
    pub message_reference: Option<JsonView>,
    pub nonce: Option<JsonView>,
}

impl View for Author {
    type V = AuthorView;

    open spec fn view(&self) -> AuthorView {
        AuthorView { id: self.id@, username: self.username@, bot: self.bot }
    }
}

pub open spec fn author_views(authors: Seq<Author>) -> Seq<AuthorView> {
    Seq::new(authors.len(), |i: int| authors[i]@)
}

impl View for Message {
    type V = MessageView;

    open spec fn view(&self) -> MessageView {
        MessageView {
            id: self.id@,
            channel_id: self.channel_id@,
            author: self.author@,
            content: self.content@,
            mentions: author_views(self.mentions@),
            webhook_id: maybe(self.webhook_id),
            message_reference: json_view(self.message_reference),
            nonce: json_view(self.nonce),
        }
    }
}

pub open spec fn message_views(messages: Seq<Message>) -> Seq<MessageView> {
    Seq::new(messages.len(), |i: int| messages[i]@)
}

impl Clone for Author {
    fn clone(&self) -> (res: Author)
        ensures
            res@ == self@,
    {
        Author { id: self.id.clone(), username: self.username.clone(), bot: self.bot }
    }
}

fn copy_authors(authors: &Vec<Author>) -> (res: Vec<Author>)
    ensures
        author_views(res@) == author_views(authors@),
{
    let mut out: Vec<Author> = Vec::new();
    let mut i: usize = 0;
    while i < authors.len()
        invariant
            i <= authors.len(),
            out.len() == i,
            forall|j: int| 0 <= j < i ==> (#[trigger] out@[j])@ == authors@[j]@,
        decreases authors.len() - i,
    {
        out.push(authors[i].clone());
        i = i + 1;
    }
    assert(author_views(out@) =~= author_views(authors@));
    out
}

impl Clone for Message {
    fn clone(&self) -> (res: Message)
        ensures
            res@ == self@,
    {
        Message {
            id: self.id.clone(),
            channel_id: self.channel_id.clone(),
            author: self.author.clone(),
            content: self.content.clone(),
            mentions: copy_authors(&self.mentions),
            webhook_id: copy_text(&self.webhook_id),
            message_reference: copied(&self.message_reference),
            nonce: copied(&self.nonce),
        }
    }
}

// ---------------------------------------------------------------------------
// As documents

impl AuthorView {
    pub open spec fn json(self) -> JsonView {
        JsonView::object().with("bot"@, JsonView::Bool(self.bot)).with(
            "id"@,
            JsonView::Text(self.id),
        ).with("username"@, JsonView::Text(self.username))
    }
}

pub open spec fn authors_json(authors: Seq<AuthorView>) -> JsonView
    decreases authors.len(),
{
    if authors.len() == 0 {
        JsonView::empty()
    } else {
        authors_json(authors.drop_last()).and(authors.last().json())
    }
}

impl MessageView {
    pub open spec fn json(self) -> JsonView {
        JsonView::object().with("author"@, self.author.json()).with(
            "channel_id"@,
            JsonView::Text(self.channel_id),
        ).with("content"@, JsonView::Text(self.content)).with("id"@, JsonView::Text(self.id)).with(
            "mentions"@,
            authors_json(self.mentions),
        ).with("message_reference"@, or_null(self.message_reference)).with(
            "nonce"@,
            or_null(self.nonce),
        ).with("webhook_id"@, text_or_null(self.webhook_id))
    }
}

pub open spec fn messages_json(messages: Seq<MessageView>) -> JsonView
    decreases messages.len(),
{
    if messages.len() == 0 {
        JsonView::empty()
    } else {
        messages_json(messages.drop_last()).and(messages.last().json())
    }
}

impl Author {
    pub fn json(&self) -> (res: Json)
        ensures
            res@ == self@.json(),
    {
        Json::object().with("bot", Json::Bool(self.bot)).with(
            "id",
            Json::string(self.id.as_str()),
        ).with("username", Json::string(self.username.as_str()))
    }
}

fn authors_document(authors: &Vec<Author>) -> (res: Json)
    ensures
        res@ == authors_json(author_views(authors@)),
{
    let ghost all = author_views(authors@);
    let mut out = Json::empty();
    let mut i: usize = 0;
    assert(all.take(0) =~= Seq::empty());
    while i < authors.len()
        invariant
            i <= authors.len(),
            all == author_views(authors@),
            out@ == authors_json(all.take(i as int)),
        decreases authors.len() - i,
    {
        assert(all.take(i + 1).drop_last() =~= all.take(i as int));
        out = out.and(authors[i].json());
        i = i + 1;
    }
    assert(all.take(i as int) =~= all);
    out
}

impl Message {
    pub fn json(&self) -> (res: Json)
        ensures
            res@ == self@.json(),
    {
        Json::object().with("author", self.author.json()).with(
            "channel_id",
            Json::string(self.channel_id.as_str()),
        ).with("content", Json::string(self.content.as_str())).with(
            "id",
            Json::string(self.id.as_str()),
        ).with("mentions", authors_document(&self.mentions)).with(
            "message_reference",
            Json::or_null(&self.message_reference),
        ).with("nonce", Json::or_null(&self.nonce)).with(
            "webhook_id",
            Json::optional(&self.webhook_id),
        )
    }
}

/// The messages as one document.
pub fn messages_document(messages: &Vec<Message>) -> (res: Json)
    ensures
        res@ == messages_json(message_views(messages@)),
{
    let ghost all = message_views(messages@);
    let mut out = Json::empty();
    let mut i: usize = 0;
    assert(all.take(0) =~= Seq::empty());
    while i < messages.len()
        invariant
            i <= messages.len(),
            all == message_views(messages@),
            out@ == messages_json(all.take(i as int)),
        decreases messages.len() - i,
    {
        assert(all.take(i + 1).drop_last() =~= all.take(i as int));
        out = out.and(messages[i].json());
        i = i + 1;
    }
    assert(all.take(i as int) =~= all);
    out
}

// ---------------------------------------------------------------------------
// Identities

/// The number that a Discord identity spells: up to twenty digits that fit in 64 bits.
pub open spec fn snowflake_value(value: Seq<char>) -> Result<u64, ErrorView> {
    if !(size(value) > 0 && size(value) <= 20 && digits(value)) {
        Err(ErrorView::Snowflake)
    } else if value_of(value) > u64::MAX {
        Err(ErrorView::SnowflakeRange)
    } else {
        Ok(value_of(value) as u64)
    }
}

/// The number that a Discord identity spells.
pub fn snowflake(value: &str) -> (res: Result<u64, Error>)
    ensures
        seen(res) == snowflake_value(value@),
{
    if !(byte_len(value) > 0 && byte_len(value) <= 20 && all_digits(value)) {
        return Err(Error::Snowflake);
    }
    match parse_digits(value) {
        None => Err(Error::SnowflakeRange),
        Some(n) => Ok(n),
    }
}

/// The number that a text spells, after a plus sign or without one; zero where it spells none.
pub open spec fn rank(id: Seq<char>) -> u64 {
    let figures = if id.len() > 0 && id[0] == '+' {
        id.skip(1)
    } else {
        id
    };
    if figures.len() > 0 && digits(figures) && value_of(figures) <= u64::MAX {
        value_of(figures) as u64
    } else {
        0
    }
}

fn rank_of(id: &str) -> (res: u64)
    ensures
        res == rank(id@),
{
    let v = chars_of(id);
    let start: usize = if v.len() > 0 && v[0] == '+' {
        1
    } else {
        0
    };
    let figures = string_of(&v, start, v.len());
    assert(id@.subrange(0, id@.len() as int) =~= id@);
    assert(start == 1 ==> figures@ =~= id@.skip(1));
    assert(figures@.len() == v.len() - start);
    if start < v.len() && all_digits(figures.as_str()) {
        match parse_digits(figures.as_str()) {
            Some(n) => n,
            None => 0,
        }
    } else {
        0
    }
}

/// Someone other than a bot asks the bot something.
pub open spec fn asks(message: MessageView, bot_id: Seq<char>) -> bool {
    &&& !message.author.bot
    &&& message.webhook_id is None
    &&& message.author.id != bot_id
    &&& !blank(message.content)
    &&& named(message.mentions, bot_id)
}

/// One of the authors has that identity.
pub open spec fn named(authors: Seq<AuthorView>, id: Seq<char>) -> bool {
    exists|i: int| 0 <= i < authors.len() && (#[trigger] authors[i]).id == id
}

fn mentions(authors: &Vec<Author>, id: &str) -> (res: bool)
    ensures
        res == named(author_views(authors@), id@),
{
    let mut i: usize = 0;
    while i < authors.len()
        invariant
            i <= authors.len(),
            forall|j: int| 0 <= j < i ==> (#[trigger] author_views(authors@)[j]).id != id@,
        decreases authors.len() - i,
    {
        assert(author_views(authors@)[i as int] == authors@[i as int]@);
        if same(authors[i].id.as_str(), id) {
            return true;
        }
        i = i + 1;
    }
    false
}

/// Whether a message may be answered: a person wrote it, it says something, and it mentions the
/// bot.
pub fn eligible(message: &Message, config: &DiscordConfig) -> (res: bool)
    ensures
        res == asks(message@, config.bot_id@),
{
    !message.author.bot && message.webhook_id.is_none() && !same(
        message.author.id.as_str(),
        config.bot_id.as_str(),
    ) && !is_blank(message.content.as_str()) && mentions(&message.mentions, config.bot_id.as_str())
}

// ---------------------------------------------------------------------------
// Order

/// Where a message goes among messages in order: behind those that do not come after it.
pub open spec fn placed(list: Seq<MessageView>, message: MessageView, down: bool) -> Seq<
    MessageView,
>
    decreases list.len(),
{
    if list.len() == 0 || !after(list.last(), message, down) {
        list.push(message)
    } else {
        placed(list.drop_last(), message, down).push(list.last())
    }
}

/// `a` comes after `b`: a greater identity, or a smaller one when the order goes down.
pub open spec fn after(a: MessageView, b: MessageView, down: bool) -> bool {
    if down {
        rank(a.id) < rank(b.id)
    } else {
        rank(a.id) > rank(b.id)
    }
}

/// The messages in the order of their identities; those of equal identity stay in their order.
pub open spec fn arranged(list: Seq<MessageView>, down: bool) -> Seq<MessageView>
    decreases list.len(),
{
    if list.len() == 0 {
        list
    } else {
        placed(arranged(list.drop_last(), down), list.last(), down)
    }
}

/// No message comes after one that follows it.
pub open spec fn in_order(list: Seq<MessageView>, down: bool) -> bool {
    forall|i: int, j: int| 0 <= i < j < list.len() ==> !after(list[i], list[j], down)
}

proof fn lemma_placed(list: Seq<MessageView>, message: MessageView, down: bool)
    requires
        in_order(list, down),
    ensures
        in_order(placed(list, message, down), down),
        placed(list, message, down).len() == list.len() + 1,
        placed(list, message, down).to_multiset() == list.to_multiset().insert(message),
        placed(list, message, down).last() == message || placed(list, message, down).last()
            == list.last(),
        forall|i: int|
            0 <= i < list.len() + 1 ==> (#[trigger] placed(list, message, down)[i] == message
                || list.contains(placed(list, message, down)[i])),
    decreases list.len(),
{
    broadcast use vstd::seq_lib::group_to_multiset_ensures;

    let out = placed(list, message, down);
    if list.len() == 0 || !after(list.last(), message, down) {
        assert forall|i: int| 0 <= i < out.len() implies (#[trigger] out[i] == message
            || list.contains(out[i])) by {
            if i < list.len() {
                assert(out[i] == list[i]);
            }
        }
        assert forall|i: int, j: int| 0 <= i < j < out.len() implies !after(
            out[i],
            out[j],
            down,
        ) by {
            if j == list.len() && i < list.len() - 1 {
                assert(!after(list[i], list[list.len() - 1], down));
            }
        }
    } else {
        let rest = list.drop_last();
        let last = list.last();
        lemma_placed(rest, message, down);
        let inner = placed(rest, message, down);
        assert(list =~= rest.push(last));
        assert(out.to_multiset() == inner.to_multiset().insert(last));
        assert(list.to_multiset() == rest.to_multiset().insert(last));
        assert(out.to_multiset() =~= list.to_multiset().insert(message));
        assert forall|i: int| 0 <= i < out.len() implies (#[trigger] out[i] == message
            || list.contains(out[i])) by {
            if i < inner.len() {
                assert(out[i] == inner[i]);
                if inner[i] != message {
                    assert(rest.contains(inner[i]));
                    let k = choose|k: int| 0 <= k < rest.len() && rest[k] == inner[i];
                    assert(list[k] == inner[i]);
                }
            } else {
                assert(list[list.len() - 1] == out[i]);
            }
        }
        assert forall|i: int, j: int| 0 <= i < j < out.len() implies !after(
            out[i],
            out[j],
            down,
        ) by {
            if j == inner.len() {
                assert(out[i] == inner[i]);
                if inner[i] != message {
                    assert(rest.contains(inner[i]));
                    let k = choose|k: int| 0 <= k < rest.len() && rest[k] == inner[i];
                    assert(!after(list[k], list[list.len() - 1], down));
                }
            }
        }
    }
}

/// Arranging messages puts them in order, and loses and adds none.
pub proof fn law_arranged(list: Seq<MessageView>, down: bool)
    ensures
        in_order(arranged(list, down), down),
        arranged(list, down).to_multiset() == list.to_multiset(),
        arranged(list, down).len() == list.len(),
    decreases list.len(),
{
    broadcast use vstd::seq_lib::group_to_multiset_ensures;

    if list.len() > 0 {
        law_arranged(list.drop_last(), down);
        lemma_placed(arranged(list.drop_last(), down), list.last(), down);
        assert(list =~= list.drop_last().push(list.last()));
    }
}

fn place(list: &mut Vec<Message>, message: Message, down: bool)
    ensures
        message_views(final(list)@) == placed(message_views(old(list)@), message@, down),
{
    let ghost all = message_views(list@);
    let rank = rank_of(message.id.as_str());
    let mut at: usize = list.len();
    assert(all.take(at as int) =~= all);
    assert(all.skip(at as int) =~= Seq::empty());
    assert(placed(all, message@, down) =~= placed(all.take(at as int), message@, down) + all.skip(
        at as int,
    ));
    while at > 0
        invariant
            at <= list.len(),
            all == message_views(list@),
            rank == self::rank(message@.id),
            placed(all, message@, down) == placed(all.take(at as int), message@, down) + all.skip(
                at as int,
            ),
        ensures
            at <= list.len(),
            placed(all, message@, down) == all.take(at as int).push(message@) + all.skip(at as int),
        decreases at,
    {
        let other = rank_of(list[at - 1].id.as_str());
        assert(all.take(at as int).last() == list@[at - 1]@);
        let behind = if down {
            other < rank
        } else {
            other > rank
        };
        if !behind {
            break;
        }
        proof {
            assert(all.take(at as int).drop_last() =~= all.take(at - 1));
            assert(placed(all.take(at - 1), message@, down).push(list@[at - 1]@) + all.skip(
                at as int,
            ) =~= placed(all.take(at - 1), message@, down) + all.skip(at - 1));
        }
        at = at - 1;
    }
    let ghost view = message@;
    let ghost before = list@;
    list.insert(at, message);
    assert(message_views(list@) =~= all.take(at as int).push(view) + all.skip(at as int)) by {
        assert(list@ == before.insert(at as int, message));
    }
}

/// The messages in the order of their identities, from the greatest down where `down` is set.
pub fn arrange(messages: Vec<Message>, down: bool) -> (res: Vec<Message>)
    ensures
        message_views(res@) == arranged(message_views(messages@), down),
{
    let ghost all = message_views(messages@);
    let mut rest = messages;
    let mut out: Vec<Message> = Vec::new();
    let ghost mut n: int = 0;
    assert(message_views(out@) =~= arranged(all.take(0), down));
    assert(all.skip(0) =~= all);
    while rest.len() > 0
        invariant
            0 <= n <= all.len(),
            rest.len() == all.len() - n,
            message_views(rest@) == all.skip(n),
            message_views(out@) == arranged(all.take(n), down),
        decreases rest.len(),
    {
        let ghost before = rest@;
        let message = rest.remove(0);
        assert(message_views(before)[0] == message@);
        assert(message@ == all[n]);
        place(&mut out, message, down);
        proof {
            assert(all.take(n + 1).drop_last() =~= all.take(n));
            assert(message_views(rest@) =~= all.skip(n + 1)) by {
                assert forall|i: int| 0 <= i < rest@.len() implies message_views(rest@)[i]
                    == all.skip(n + 1)[i] by {
                    assert(rest@[i] == before[i + 1]);
                    assert(message_views(before)[i + 1] == all.skip(n)[i + 1]);
                }
            }
            n = n + 1;
        }
    }
    assert(all.take(n) =~= all);
    out
}

// ---------------------------------------------------------------------------
// Requests

/// A request for messages.
#[derive(Debug)]
pub struct Fetch {
    pub url: String,
    pub authorization: String,
    pub limit: String,
    /// A further parameter and its value.
    pub position: Option<(String, String)>,
}

pub struct FetchView {
    pub url: Seq<char>,
    pub authorization: Seq<char>,
    pub limit: Seq<char>,
    pub position: Option<(Seq<char>, Seq<char>)>,
}

impl View for Fetch {
    type V = FetchView;

    open spec fn view(&self) -> FetchView {
        FetchView {
            url: self.url@,
            authorization: self.authorization@,
            limit: self.limit@,
            position: match self.position {
                Some((name, value)) => Some((name@, value@)),
                None => None,
            },
        }
    }
}

/// A result that holds a view in the place of a value.
pub open spec fn viewed<T: View>(res: Result<T, Error>) -> Result<T::V, ErrorView> {
    match res {
        Ok(value) => Ok(value@),
        Err(error) => Err(error@),
    }
}

/// The authorization of a bot whose token the environment gives.
pub open spec fn authorization(
    variable: Seq<char>,
    value: Result<Seq<char>, Seq<char>>,
) -> Result<Seq<char>, ErrorView> {
    match value {
        Err(words) => Err(ErrorView::TokenUnset { name: variable, words }),
        Ok(token) => if blank(token) {
            Err(ErrorView::TokenEmpty)
        } else {
            Ok("Bot "@ + token)
        },
    }
}

/// The authorization header for the token that the environment gives.
pub fn token(config: &DiscordConfig, value: &Result<String, String>) -> (res: Result<String, Error>)
    ensures
        viewed(res) == authorization(config.token_env@, read_as(*value)),
{
    match value {
        Err(words) => Err(
            Error::TokenUnset { name: config.token_env.clone(), words: words.clone() },
        ),
        Ok(token) => if is_blank(token.as_str()) {
            Err(Error::TokenEmpty)
        } else {
            let mut out = "Bot ".to_owned();
            out.append(token.as_str());
            Ok(out)
        },
    }
}

/// The channel is one of those configured.
pub open spec fn configured(channels: Seq<String>, channel: Seq<char>) -> bool {
    exists|i: int| 0 <= i < channels.len() && (#[trigger] channels[i])@ == channel
}

/// Whether the channel is one of those configured.
pub fn is_configured(channels: &Vec<String>, channel: &str) -> (res: bool)
    ensures
        res == configured(channels@, channel@),
{
    let mut i: usize = 0;
    while i < channels.len()
        invariant
            i <= channels.len(),
            forall|j: int| 0 <= j < i ==> (#[trigger] channels@[j])@ != channel@,
        decreases channels.len() - i,
    {
        if same(channels[i].as_str(), channel) {
            return true;
        }
        i = i + 1;
    }
    false
}

/// Where a channel's messages are.
pub open spec fn channel_address(config: DiscordConfig, channel: Seq<char>) -> Result<
    Seq<char>,
    ErrorView,
> {
    match snowflake_value(channel) {
        Err(error) => Err(error),
        Ok(_) => if !(config.enabled && configured(config.channels@, channel)) {
            Err(ErrorView::ChannelDisabled)
        } else {
            Ok(stripped_end(config.api_base@, "/"@) + "/channels/"@ + channel + "/messages"@)
        },
    }
}

/// Where a configured channel's messages are.
pub fn channel_url(config: &DiscordConfig, channel: &str) -> (res: Result<String, Error>)
    ensures
        viewed(res) == channel_address(*config, channel@),
{
    match snowflake(channel) {
        Err(error) => Err(error),
        Ok(_) => if !(config.enabled && is_configured(&config.channels, channel)) {
            Err(Error::ChannelDisabled)
        } else {
            let mut out = strip_end(config.api_base.as_str(), "/");
            out.append("/channels/");
            out.append(channel);
            out.append("/messages");
            Ok(out)
        },
    }
}

/// A request with an address and an authorization, or what stands against either.
pub open spec fn request(
    address: Result<Seq<char>, ErrorView>,
    authorization: Result<Seq<char>, ErrorView>,
    limit: Seq<char>,
    position: Option<(Seq<char>, Seq<char>)>,
) -> Result<FetchView, ErrorView> {
    match (address, authorization) {
        (Err(error), _) => Err(error),
        (Ok(_), Err(error)) => Err(error),
        (Ok(url), Ok(authorization)) => Ok(FetchView { url, authorization, limit, position }),
    }
}

/// The request for the last messages of a channel, or for those after one of them.
pub open spec fn newest(
    config: DiscordConfig,
    channel: Seq<char>,
    after: Option<Seq<char>>,
    token: Result<Seq<char>, Seq<char>>,
) -> Result<FetchView, ErrorView> {
    let plain = request(
        channel_address(config, channel),
        authorization(config.token_env@, token),
        "100"@,
        match after {
            Some(id) => Some(("after"@, id)),
            None => None,
        },
    );
    match (plain, after) {
        (Ok(_), Some(id)) => match snowflake_value(id) {
            Err(error) => Err(error),
            Ok(_) => plain,
        },
        _ => plain,
    }
}

/// The request for the messages around or before one of a channel.
pub open spec fn near(
    config: DiscordConfig,
    channel: Seq<char>,
    limit: Seq<char>,
    side: Seq<char>,
    id: Seq<char>,
    token: Result<Seq<char>, Seq<char>>,
) -> Result<FetchView, ErrorView> {
    match snowflake_value(id) {
        Err(error) => Err(error),
        Ok(_) => request(
            channel_address(config, channel),
            authorization(config.token_env@, token),
            limit,
            Some((side, id)),
        ),
    }
}

/// Asks for the last messages of a channel, or for those after one of them.
pub fn messages(
    config: &DiscordConfig,
    channel: &str,
    after: Option<&str>,
    value: &Result<String, String>,
) -> (res: Result<Fetch, Error>)
    ensures
        viewed(res) == newest(
            *config,
            channel@,
            match after {
                Some(id) => Some(id@),
                None => None,
            },
            read_as(*value),
        ),
{
    let url = match channel_url(config, channel) {
        Err(error) => {
            return Err(error);
        },
        Ok(url) => url,
    };
    let authorization = match token(config, value) {
        Err(error) => {
            return Err(error);
        },
        Ok(authorization) => authorization,
    };
    let position = match after {
        None => None,
        Some(id) => match snowflake(id) {
            Err(error) => {
                return Err(error);
            },
            Ok(_) => Some(("after".to_owned(), id.to_owned())),
        },
    };
    Ok(Fetch { url, authorization, limit: "100".to_owned(), position })
}

fn beside(
    config: &DiscordConfig,
    channel: &str,
    limit: &str,
    side: &str,
    id: &str,
    value: &Result<String, String>,
) -> (res: Result<Fetch, Error>)
    ensures
        viewed(res) == near(*config, channel@, limit@, side@, id@, read_as(*value)),
{
    match snowflake(id) {
        Err(error) => {
            return Err(error);
        },
        Ok(_) => {},
    }
    let url = match channel_url(config, channel) {
        Err(error) => {
            return Err(error);
        },
        Ok(url) => url,
    };
    let authorization = match token(config, value) {
        Err(error) => {
            return Err(error);
        },
        Ok(authorization) => authorization,
    };
    Ok(
        Fetch {
            url,
            authorization,
            limit: limit.to_owned(),
            position: Some((side.to_owned(), id.to_owned())),
        },
    )
}

/// The request for the messages before one of a channel.
pub open spec fn earlier(
    config: DiscordConfig,
    channel: Seq<char>,
    id: Seq<char>,
    token: Result<Seq<char>, Seq<char>>,
) -> Result<FetchView, ErrorView> {
    near(config, channel, "100"@, "before"@, id, token)
}

/// The request for the messages around one of a channel.
pub open spec fn around(
    config: DiscordConfig,
    channel: Seq<char>,
    id: Seq<char>,
    token: Result<Seq<char>, Seq<char>>,
) -> Result<FetchView, ErrorView> {
    near(config, channel, "20"@, "around"@, id, token)
}

/// Asks for the messages before one of a channel.
pub fn before(
    config: &DiscordConfig,
    channel: &str,
    id: &str,
    value: &Result<String, String>,
) -> (res: Result<Fetch, Error>)
    ensures
        viewed(res) == earlier(*config, channel@, id@, read_as(*value)),
{
    beside(config, channel, "100", "before", id, value)
}

/// Asks for the messages around one of a channel.
pub fn context(
    config: &DiscordConfig,
    channel: &str,
    message: &str,
    value: &Result<String, String>,
) -> (res: Result<Fetch, Error>)
    ensures
        viewed(res) == around(*config, channel@, message@, read_as(*value)),
{
    beside(config, channel, "20", "around", message, value)
}

// ---------------------------------------------------------------------------
// Replies

/// What is wrong with a message that came for a channel.
pub open spec fn stray(message: MessageView, channel: Seq<char>) -> Option<ErrorView> {
    match snowflake_value(message.id) {
        Err(error) => Some(error),
        Ok(_) => if message.channel_id == ""@ || message.channel_id == channel {
            None
        } else {
            Some(ErrorView::WrongChannel)
        },
    }
}

/// The first fault among messages that came for a channel.
pub open spec fn first_stray(list: Seq<MessageView>, channel: Seq<char>) -> Option<ErrorView>
    decreases list.len(),
{
    if list.len() == 0 {
        None
    } else if stray(list[0], channel) is Some {
        stray(list[0], channel)
    } else {
        first_stray(list.drop_first(), channel)
    }
}

/// The first identity among messages that is none.
pub open spec fn first_nameless(list: Seq<MessageView>) -> Option<ErrorView>
    decreases list.len(),
{
    if list.len() == 0 {
        None
    } else if snowflake_value(list[0].id) is Err {
        Some(snowflake_value(list[0].id)->Err_0)
    } else {
        first_nameless(list.drop_first())
    }
}

/// The result, by the views of its messages.
pub open spec fn listed(res: Result<Vec<Message>, Error>) -> Result<Seq<MessageView>, ErrorView> {
    match res {
        Ok(list) => Ok(message_views(list@)),
        Err(error) => Err(error@),
    }
}

/// What a request for the newest messages of a channel gives.
pub open spec fn newest_received(list: Seq<MessageView>, channel: Seq<char>) -> Result<
    Seq<MessageView>,
    ErrorView,
> {
    match first_stray(list, channel) {
        Some(error) => Err(error),
        None => Ok(arranged(list, false)),
    }
}

/// What a request for the messages before one gives.
pub open spec fn before_received(list: Seq<MessageView>) -> Result<Seq<MessageView>, ErrorView> {
    match first_nameless(list) {
        Some(error) => Err(error),
        None => Ok(list),
    }
}

/// Takes in the newest messages of a channel, in the order of their identities.
pub fn receive_messages(items: Vec<Message>, channel: &str) -> (res: Result<Vec<Message>, Error>)
    ensures
        listed(res) == newest_received(message_views(items@), channel@),
{
    let ghost all = message_views(items@);
    let mut i: usize = 0;
    assert(all.skip(0) =~= all);
    while i < items.len()
        invariant
            i <= items.len(),
            all == message_views(items@),
            first_stray(all, channel@) == first_stray(all.skip(i as int), channel@),
        decreases items.len() - i,
    {
        assert(all.skip(i as int).drop_first() =~= all.skip(i + 1));
        assert(all.skip(i as int)[0] == items@[i as int]@);
        match snowflake(items[i].id.as_str()) {
            Err(error) => {
                return Err(error);
            },
            Ok(_) => {},
        }
        if !same(items[i].channel_id.as_str(), "") && !same(items[i].channel_id.as_str(), channel) {
            return Err(Error::WrongChannel);
        }
        i = i + 1;
    }
    Ok(arrange(items, false))
}

/// Takes in the messages before one, as they came.
pub fn receive_before(items: Vec<Message>) -> (res: Result<Vec<Message>, Error>)
    ensures
        listed(res) == before_received(message_views(items@)),
{
    let ghost all = message_views(items@);
    let mut i: usize = 0;
    assert(all.skip(0) =~= all);
    while i < items.len()
        invariant
            i <= items.len(),
            all == message_views(items@),
            first_nameless(all) == first_nameless(all.skip(i as int)),
        decreases items.len() - i,
    {
        assert(all.skip(i as int).drop_first() =~= all.skip(i + 1));
        assert(all.skip(i as int)[0] == items@[i as int]@);
        match snowflake(items[i].id.as_str()) {
            Err(error) => {
                return Err(error);
            },
            Ok(_) => {},
        }
        i = i + 1;
    }
    Ok(items)
}

// ---------------------------------------------------------------------------
// Drafts

/// A draft of an answer.
#[derive(Debug)]
pub struct Draft {
    pub answer: String,
    pub should_reply: bool,
    pub needs_review: bool,
    pub reason: String,
}

pub struct DraftView {
    pub answer: Seq<char>,
    pub should_reply: bool,
    pub needs_review: bool,
    pub reason: Seq<char>,
}

impl View for Draft {
    type V = DraftView;

    open spec fn view(&self) -> DraftView {
        DraftView {
            answer: self.answer@,
            should_reply: self.should_reply,
            needs_review: self.needs_review,
            reason: self.reason@,
        }
    }
}

impl Clone for Draft {
    fn clone(&self) -> (res: Draft)
        ensures
            res@ == self@,
    {
        Draft {
            answer: self.answer.clone(),
            should_reply: self.should_reply,
            needs_review: self.needs_review,
            reason: self.reason.clone(),
        }
    }
}

impl DraftView {
    /// What is wrong with the draft.
    pub open spec fn fault(self) -> Option<ErrorView> {
        if !(size(self.answer) <= 6000 && size(self.reason) <= 2000 && self.reason.len() > 0) {
            Some(ErrorView::DraftShape)
        } else if self.should_reply && blank(self.answer) {
            Some(ErrorView::DraftEmpty)
        } else {
            None
        }
    }

    pub open spec fn json(self) -> JsonView {
        JsonView::object().with("answer"@, JsonView::Text(self.answer)).with(
            "needs_review"@,
            JsonView::Bool(self.needs_review),
        ).with("reason"@, JsonView::Text(self.reason)).with(
            "should_reply"@,
            JsonView::Bool(self.should_reply),
        )
    }
}

impl Draft {
    /// Admits a draft whose parts are within bounds.
    pub fn validate(&self) -> (res: Result<(), Error>)
        ensures
            seen(res) == match self@.fault() {
                None => Ok(()),
                Some(error) => Err(error),
            },
    {
        proof {
            reveal_strlit("");
            assert(self.reason@.len() == 0 ==> self.reason@ =~= ""@);
        }
        if !(byte_len(self.answer.as_str()) <= 6000 && byte_len(self.reason.as_str()) <= 2000
            && !same(self.reason.as_str(), "")) {
            return Err(Error::DraftShape);
        }
        if self.should_reply && is_blank(self.answer.as_str()) {
            return Err(Error::DraftEmpty);
        }
        Ok(())
    }

    pub fn json(&self) -> (res: Json)
        ensures
            res@ == self@.json(),
    {
        Json::object().with("answer", Json::string(self.answer.as_str())).with(
            "needs_review",
            Json::Bool(self.needs_review),
        ).with("reason", Json::string(self.reason.as_str())).with(
            "should_reply",
            Json::Bool(self.should_reply),
        )
    }
}

// ---------------------------------------------------------------------------
// Sending

/// The text that is sent: the bot says first that it is the owner's assistant.
pub open spec fn disclosed(owner: Seq<char>, answer: Seq<char>) -> Seq<char> {
    "I'm "@ + owner + "'s AI assistant, replying while they're away.\n\n"@ + trimmed(answer)
}

/// The reply to a message: no mention notifies anyone, and Discord takes it once.
pub open spec fn body(trigger: Seq<char>, content: Seq<char>) -> JsonView {
    JsonView::object().with(
        "allowed_mentions"@,
        JsonView::object().with("parse"@, JsonView::empty()).with(
            "replied_user"@,
            JsonView::Bool(false),
        ),
    ).with("content"@, JsonView::Text(content)).with("enforce_nonce"@, JsonView::Bool(true)).with(
        "message_reference"@,
        JsonView::object().with("fail_if_not_exists"@, JsonView::Bool(true)).with(
            "message_id"@,
            JsonView::Text(trigger),
        ),
    ).with("nonce"@, JsonView::Text(trigger))
}

/// The reply to the message `trigger`, if it can be sent.
pub open spec fn reply_body(owner: Seq<char>, trigger: Seq<char>, answer: Seq<char>) -> Result<
    JsonView,
    ErrorView,
> {
    match snowflake_value(trigger) {
        Err(error) => Err(error),
        Ok(_) => if disclosed(owner, answer).len() > 2000 {
            Err(ErrorView::ReplyLength)
        } else {
            Ok(body(trigger, disclosed(owner, answer)))
        },
    }
}

/// A result that holds what a document says in the place of the document.
pub open spec fn said(res: Result<Json, Error>) -> Result<JsonView, ErrorView> {
    match res {
        Ok(value) => Ok(value.view()),
        Err(error) => Err(error@),
    }
}

/// The reply to the message `trigger`.
pub fn payload(config: &DiscordConfig, trigger: &str, answer: &str) -> (res: Result<Json, Error>)
    ensures
        said(res) == reply_body(config.owner_name@, trigger@, answer@),
{
    match snowflake(trigger) {
        Err(error) => {
            return Err(error);
        },
        Ok(_) => {},
    }
    let mut content = "I'm ".to_owned();
    content.append(config.owner_name.as_str());
    content.append("'s AI assistant, replying while they're away.\n\n");
    content.append(trim(answer).as_str());
    if chars_of(content.as_str()).len() > 2000 {
        return Err(Error::ReplyLength);
    }
    let mentions = Json::object().with("parse", Json::empty()).with(
        "replied_user",
        Json::Bool(false),
    );
    let reference = Json::object().with("fail_if_not_exists", Json::Bool(true)).with(
        "message_id",
        Json::string(trigger),
    );
    Ok(
        Json::object().with("allowed_mentions", mentions).with("content", Json::Text(content)).with(
            "enforce_nonce",
            Json::Bool(true),
        ).with("message_reference", reference).with("nonce", Json::string(trigger)),
    )
}

/// Where a reply is sent, if sending is allowed.
pub open spec fn sending(
    config: DiscordConfig,
    channel: Seq<char>,
    token: Result<Seq<char>, Seq<char>>,
) -> Result<FetchView, ErrorView> {
    if !config.allow_send {
        Err(ErrorView::SendDisabled)
    } else {
        request(
            channel_address(config, channel),
            authorization(config.token_env@, token),
            ""@,
            None,
        )
    }
}

/// Where a reply is sent.
pub fn send(config: &DiscordConfig, channel: &str, value: &Result<String, String>) -> (res: Result<
    Fetch,
    Error,
>)
    ensures
        viewed(res) == sending(*config, channel@, read_as(*value)),
{
    if !config.allow_send {
        return Err(Error::SendDisabled);
    }
    let url = match channel_url(config, channel) {
        Err(error) => {
            return Err(error);
        },
        Ok(url) => url,
    };
    match token(config, value) {
        Err(error) => Err(error),
        Ok(authorization) => Ok(
            Fetch { url, authorization, limit: "".to_owned(), position: None },
        ),
    }
}

/// The service's answer shows that the reply stands in the channel as it was sent.
pub open spec fn delivered(
    response: MessageView,
    bot_id: Seq<char>,
    channel: Seq<char>,
    body: JsonView,
) -> bool {
    response.author.id == bot_id && response.channel_id == channel && text_in(
        body.get("content"@),
    ) == Some(response.content)
}

/// Takes in the service's answer to a reply.
pub fn verify_sent(
    config: &DiscordConfig,
    channel: &str,
    body: &Json,
    response: Message,
) -> (res: Result<Message, Error>)
    ensures
        viewed(res) == match snowflake_value(response@.id) {
            Err(error) => Err(error),
            Ok(_) => if delivered(response@, config.bot_id@, channel@, body@) {
                Ok(response@)
            } else {
                Err(ErrorView::SendUnverified)
            },
        },
{
    match snowflake(response.id.as_str()) {
        Err(error) => {
            return Err(error);
        },
        Ok(_) => {},
    }
    let content = match text_of(body.get("content")) {
        Some(content) => same(content.as_str(), response.content.as_str()),
        None => false,
    };
    if !(same(response.author.id.as_str(), config.bot_id.as_str()) && same(
        response.channel_id.as_str(),
        channel,
    ) && content) {
        return Err(Error::SendUnverified);
    }
    Ok(response)
}

/// A message is the bot's reply to `trigger` with the words of `body`.
pub open spec fn answers(
    message: MessageView,
    bot_id: Seq<char>,
    trigger: Seq<char>,
    body: JsonView,
) -> bool {
    &&& message.author.id == bot_id
    &&& text_in(get_in(message.message_reference, "message_id"@)) == Some(trigger)
    &&& text_in(body.get("content"@)) == Some(message.content)
}

/// The first message that is the reply.
pub open spec fn first_answer(
    list: Seq<MessageView>,
    bot_id: Seq<char>,
    trigger: Seq<char>,
    body: JsonView,
) -> Option<MessageView>
    decreases list.len(),
{
    if list.len() == 0 {
        None
    } else if answers(list[0], bot_id, trigger, body) {
        Some(list[0])
    } else {
        first_answer(list.drop_first(), bot_id, trigger, body)
    }
}

fn is_answer(message: &Message, config: &DiscordConfig, trigger: &str, body: &Json) -> (res: bool)
    ensures
        res == answers(message@, config.bot_id@, trigger@, body@),
{
    let referred = match &message.message_reference {
        Some(reference) => match text_of(reference.get("message_id")) {
            Some(id) => same(id.as_str(), trigger),
            None => false,
        },
        None => false,
    };
    let content = match text_of(body.get("content")) {
        Some(content) => same(content.as_str(), message.content.as_str()),
        None => false,
    };
    same(message.author.id.as_str(), config.bot_id.as_str()) && referred && content
}

/// The reply to `trigger` among messages of its channel, where it was delivered.
pub fn reconcile(
    config: &DiscordConfig,
    trigger: &str,
    body: &Json,
    messages: &Vec<Message>,
) -> (res: Option<Message>)
    ensures
        (match res {
            Some(message) => Some(message@),
            None => None,
        }) == first_answer(message_views(messages@), config.bot_id@, trigger@, body@),
{
    let ghost all = message_views(messages@);
    let mut i: usize = 0;
    assert(all.skip(0) =~= all);
    while i < messages.len()
        invariant
            i <= messages.len(),
            all == message_views(messages@),
            first_answer(all, config.bot_id@, trigger@, body@) == first_answer(
                all.skip(i as int),
                config.bot_id@,
                trigger@,
                body@,
            ),
        decreases messages.len() - i,
    {
        assert(all.skip(i as int).drop_first() =~= all.skip(i + 1));
        assert(all.skip(i as int)[0] == messages@[i as int]@);
        if is_answer(&messages[i], config, trigger, body) {
            return Some(messages[i].clone());
        }
        i = i + 1;
    }
    None
}

// ---------------------------------------------------------------------------
// What is asked of the service

/// A channel may be asked about: Discord is on, the settings name the channel, it is a number, and
/// there is a token that says something.
pub open spec fn reachable(
    config: DiscordConfig,
    channel: Seq<char>,
    token: Result<Seq<char>, Seq<char>>,
) -> bool {
    &&& config.enabled
    &&& exists|i: int| 0 <= i < config.channels@.len() && (#[trigger] config.channels@[i])@ == channel
    &&& snowflake_value(channel) is Ok
    &&& token is Ok
    &&& !blank(token->Ok_0)
}

/// The messages of a channel are asked for at the service that the settings name, as the bot, and
/// of no other channel: the newest hundred, or those after a message; or some on a side of one.
pub proof fn law_fetch(
    config: DiscordConfig,
    channel: Seq<char>,
    after: Option<Seq<char>>,
    limit: Seq<char>,
    side: Seq<char>,
    id: Seq<char>,
    token: Result<Seq<char>, Seq<char>>,
    base: Seq<char>,
    slashes: Seq<char>,
)
    requires
        base.len() > 0 ==> base.last() != '/',
        forall|i: int| 0 <= i < slashes.len() ==> #[trigger] slashes[i] == '/',
        config.api_base@ == base + slashes,
    ensures
        ({
            let url = base + "/channels/"@ + channel + "/messages"@;
            let first = newest(config, channel, after, token);
            let second = near(config, channel, limit, side, id, token);
            let third = sending(config, channel, token);
            let open = reachable(config, channel, token);
            &&& first is Ok <==> open && (after is Some ==> snowflake_value(after->0) is Ok)
            &&& first is Ok ==> first->Ok_0.url == url && first->Ok_0.limit == "100"@
                && first->Ok_0.authorization == "Bot "@ + token->Ok_0
            &&& first is Ok && after is None ==> first->Ok_0.position is None
            &&& first is Ok && after is Some ==> first->Ok_0.position == Some(("after"@, after->0))
            &&& second is Ok <==> open && snowflake_value(id) is Ok
            &&& second is Ok ==> second->Ok_0.url == url && second->Ok_0.limit == limit
                && second->Ok_0.authorization == "Bot "@ + token->Ok_0 && second->Ok_0.position
                == Some((side, id))
            &&& third is Ok <==> open && config.allow_send
            &&& third is Ok ==> third->Ok_0.url == url && third->Ok_0.authorization == "Bot "@
                + token->Ok_0
        }),
{
    reveal_strlit("/");
    assert("/"@[0] == '/');
    assert forall|i: int| 0 <= i < slashes.len() implies "/"@.contains(#[trigger] slashes[i]) by {
        assert("/"@[0] == slashes[i]);
    }
    law_stripped_end(base, slashes, "/"@);
}

/// What came for a channel is taken exactly if every message has a number as its identity and is of
/// that channel, or says of none; it is then the same messages, the oldest first.
pub proof fn law_received(list: Seq<MessageView>, channel: Seq<char>)
    ensures
        ({
            let fits = forall|i: int|
                0 <= i < list.len() ==> snowflake_value((#[trigger] list[i]).id) is Ok && (
                list[i].channel_id.len() == 0 || list[i].channel_id == channel);
            let res = newest_received(list, channel);
            &&& res is Ok <==> fits
            &&& res is Ok ==> res->Ok_0.to_multiset() == list.to_multiset() && in_order(
                res->Ok_0,
                false,
            )
        }),
        before_received(list) is Ok <==> forall|i: int|
            0 <= i < list.len() ==> snowflake_value((#[trigger] list[i]).id) is Ok,
        before_received(list) is Ok ==> before_received(list)->Ok_0 == list,
{
    law_arranged(list, false);
    lemma_strays(list, channel);
}

proof fn lemma_strays(list: Seq<MessageView>, channel: Seq<char>)
    ensures
        first_stray(list, channel) is None <==> forall|i: int|
            0 <= i < list.len() ==> snowflake_value((#[trigger] list[i]).id) is Ok && (
            list[i].channel_id.len() == 0 || list[i].channel_id == channel),
        first_nameless(list) is None <==> forall|i: int|
            0 <= i < list.len() ==> snowflake_value((#[trigger] list[i]).id) is Ok,
    decreases list.len(),
{
    if list.len() > 0 {
        let rest = list.drop_first();
        lemma_strays(rest, channel);
        reveal_strlit("");
        assert(list[0].channel_id == ""@ <==> list[0].channel_id.len() == 0) by {
            if list[0].channel_id.len() == 0 {
                assert(list[0].channel_id =~= ""@);
            }
        }
        if first_stray(list, channel) is None {
            assert forall|i: int| 0 <= i < list.len() implies snowflake_value(
                (#[trigger] list[i]).id,
            ) is Ok && (list[i].channel_id.len() == 0 || list[i].channel_id == channel) by {
                if i > 0 {
                    assert(rest[i - 1] == list[i]);
                }
            }
        }
        if forall|i: int|
            0 <= i < list.len() ==> snowflake_value((#[trigger] list[i]).id) is Ok && (
            list[i].channel_id.len() == 0 || list[i].channel_id == channel) {
            assert forall|i: int| 0 <= i < rest.len() implies snowflake_value(
                (#[trigger] rest[i]).id,
            ) is Ok && (rest[i].channel_id.len() == 0 || rest[i].channel_id == channel) by {
                assert(rest[i] == list[i + 1]);
            }
            assert(snowflake_value(list[0].id) is Ok);
        }
        if first_nameless(list) is None {
            assert forall|i: int| 0 <= i < list.len() implies snowflake_value(
                (#[trigger] list[i]).id,
            ) is Ok by {
                if i > 0 {
                    assert(rest[i - 1] == list[i]);
                }
            }
        }
        if forall|i: int| 0 <= i < list.len() ==> snowflake_value((#[trigger] list[i]).id) is Ok {
            assert forall|i: int| 0 <= i < rest.len() implies snowflake_value(
                (#[trigger] rest[i]).id,
            ) is Ok by {
                assert(rest[i] == list[i + 1]);
            }
            assert(snowflake_value(list[0].id) is Ok);
        }
    }
}

/// An identity of Discord is the decimal numeral of a number of 64 bits, of at most twenty digits:
/// every such number has one, and it means that number.
pub proof fn law_snowflake(n: u64)
    ensures
        numeral(n as nat).len() <= 20 ==> snowflake_value(numeral(n as nat)) == Ok::<
            u64,
            ErrorView,
        >(n),
        rank(numeral(n as nat)) == n,
{
    let text = numeral(n as nat);
    lemma_numeral_value(n as nat);
    lemma_size_of_digits(text);
    assert(digit(text[0]));
}

proof fn lemma_size_of_digits(s: Seq<char>)
    requires
        digits(s),
    ensures
        size(s) == s.len(),
    decreases s.len(),
{
    if s.len() == 0 {
        lemma_size_len(s);
    } else {
        let rest = s.drop_last();
        assert forall|i: int| 0 <= i < rest.len() implies digit(#[trigger] rest[i]) by {
            assert(rest[i] == s[i]);
        }
        lemma_size_of_digits(rest);
        assert(s =~= rest.push(s.last()));
        lemma_size_push(rest, s.last());
        assert(digit(s[s.len() - 1]));
        assert(width(s.last()) == 1);
    }
}

/// The document of a message tells what it says, who wrote it, where, and to what.
pub proof fn law_message_document(message: MessageView)
    ensures
        ({
            let doc = message.json();
            &&& doc.get("id"@) == Some(JsonView::Text(message.id))
            &&& doc.get("channel_id"@) == Some(JsonView::Text(message.channel_id))
            &&& doc.get("content"@) == Some(JsonView::Text(message.content))
            &&& get_in(doc.get("author"@), "id"@) == Some(JsonView::Text(message.author.id))
            &&& get_in(doc.get("author"@), "username"@) == Some(
                JsonView::Text(message.author.username),
            )
            &&& get_in(doc.get("author"@), "bot"@) == Some(JsonView::Bool(message.author.bot))
            &&& doc.get("mentions"@) is Some
            &&& doc.get("mentions"@)->0 is List
            &&& doc.get("mentions"@)->0->List_0.len() == message.mentions.len()
            &&& forall|i: int|
                0 <= i < message.mentions.len() ==> (#[trigger] doc.get("mentions"@)->0->List_0[i]).get(
                    "id"@,
                ) == Some(JsonView::Text(message.mentions[i].id))
            &&& doc.get("message_reference"@) == Some(
                match message.message_reference {
                    Some(reference) => reference,
                    None => JsonView::Null,
                },
            )
            &&& doc.get("webhook_id"@) == Some(
                match message.webhook_id {
                    Some(id) => JsonView::Text(id),
                    None => JsonView::Null,
                },
            )
            &&& doc.get("nonce"@) == Some(
                match message.nonce {
                    Some(nonce) => nonce,
                    None => JsonView::Null,
                },
            )
        }),
{
    lemma_documents();
    lemma_message_names();
    law_authors_document(message.mentions);
}

/// The documents of messages stand in the order of the messages, one for each.
pub proof fn law_messages_document(messages: Seq<MessageView>)
    ensures
        messages_json(messages) == JsonView::List(
            Seq::new(messages.len(), |i: int| messages[i].json()),
        ),
    decreases messages.len(),
{
    lemma_documents();
    let all = Seq::new(messages.len(), |i: int| messages[i].json());
    if messages.len() == 0 {
        assert(all =~= Seq::<JsonView>::empty());
    } else {
        law_messages_document(messages.drop_last());
        let before = Seq::new(
            messages.drop_last().len(),
            |i: int| messages.drop_last()[i].json(),
        );
        assert(all =~= before.push(messages.last().json()));
    }
}

proof fn lemma_message_names()
    ensures
        "author"@ != "channel_id"@,
        "author"@ != "content"@,
        "author"@ != "id"@,
        "author"@ != "mentions"@,
        "author"@ != "message_reference"@,
        "author"@ != "nonce"@,
        "author"@ != "webhook_id"@,
        "channel_id"@ != "content"@,
        "channel_id"@ != "id"@,
        "channel_id"@ != "mentions"@,
        "channel_id"@ != "message_reference"@,
        "channel_id"@ != "nonce"@,
        "channel_id"@ != "webhook_id"@,
        "content"@ != "id"@,
        "content"@ != "mentions"@,
        "content"@ != "message_reference"@,
        "content"@ != "nonce"@,
        "content"@ != "webhook_id"@,
        "id"@ != "mentions"@,
        "id"@ != "message_reference"@,
        "id"@ != "nonce"@,
        "id"@ != "webhook_id"@,
        "mentions"@ != "message_reference"@,
        "mentions"@ != "nonce"@,
        "mentions"@ != "webhook_id"@,
        "message_reference"@ != "nonce"@,
        "message_reference"@ != "webhook_id"@,
        "nonce"@ != "webhook_id"@,
        "bot"@ != "id"@,
        "bot"@ != "username"@,
        "id"@ != "username"@,
{
    reveal_strlit("author");
    reveal_strlit("channel_id");
    reveal_strlit("content");
    reveal_strlit("id");
    reveal_strlit("mentions");
    reveal_strlit("message_reference");
    reveal_strlit("nonce");
    reveal_strlit("webhook_id");
    reveal_strlit("bot");
    reveal_strlit("username");
    assert("author"@.len() == 6);
    assert("channel_id"@.len() == 10);
    assert("content"@.len() == 7);
    assert("id"@.len() == 2);
    assert("mentions"@.len() == 8);
    assert("message_reference"@.len() == 17);
    assert("nonce"@.len() == 5);
    assert("webhook_id"@.len() == 10);
    assert("bot"@.len() == 3);
    assert("username"@.len() == 8);
    assert("channel_id"@[0] != "webhook_id"@[0]);
}

/// The documents of authors stand in the order of the authors, one for each.
pub proof fn law_authors_document(authors: Seq<AuthorView>)
    ensures
        authors_json(authors) is List,
        authors_json(authors)->List_0.len() == authors.len(),
        forall|i: int|
            0 <= i < authors.len() ==> {
                let doc = #[trigger] authors_json(authors)->List_0[i];
                &&& doc.get("id"@) == Some(JsonView::Text(authors[i].id))
                &&& doc.get("username"@) == Some(JsonView::Text(authors[i].username))
                &&& doc.get("bot"@) == Some(JsonView::Bool(authors[i].bot))
            },
    decreases authors.len(),
{
    lemma_documents();
    lemma_message_names();
    if authors.len() > 0 {
        law_authors_document(authors.drop_last());
        let list = authors_json(authors)->List_0;
        let before = authors_json(authors.drop_last())->List_0;
        assert(list =~= before.push(authors.last().json()));
    }
}

/// The messages before one are asked for a hundred at a time, and around one twenty.
pub proof fn law_pages(
    config: DiscordConfig,
    channel: Seq<char>,
    id: Seq<char>,
    token: Result<Seq<char>, Seq<char>>,
)
    ensures
        ({
            let before = earlier(config, channel, id, token);
            let beside = around(config, channel, id, token);
            &&& before is Ok <==> beside is Ok
            &&& before is Ok ==> before->Ok_0.limit == "100"@ && before->Ok_0.position == Some(
                ("before"@, id),
            )
            &&& beside is Ok ==> beside->Ok_0.limit == "20"@ && beside->Ok_0.position == Some(
                ("around"@, id),
            )
        }),
{
}

/// What stands in the way of a request is told: an identity that is none, a channel that the
/// settings do not name, a token that is missing or empty, and sending that is off.
pub proof fn law_no_request(
    config: DiscordConfig,
    channel: Seq<char>,
    token: Result<Seq<char>, Seq<char>>,
    id: Seq<char>,
)
    ensures
        ({
            let first = newest(config, channel, None, token);
            let open = config.enabled && exists|i: int|
                0 <= i < config.channels@.len() && (#[trigger] config.channels@[i])@ == channel;
            &&& snowflake_value(channel) is Err ==> first == Err::<FetchView, ErrorView>(
                snowflake_value(channel)->Err_0,
            )
            &&& snowflake_value(channel) is Ok && !open ==> first == Err::<FetchView, ErrorView>(
                ErrorView::ChannelDisabled,
            )
            &&& snowflake_value(channel) is Ok && open && token is Err ==> first == Err::<
                FetchView,
                ErrorView,
            >(ErrorView::TokenUnset { name: config.token_env@, words: token->Err_0 })
            &&& snowflake_value(channel) is Ok && open && token is Ok && blank(token->Ok_0)
                ==> first == Err::<FetchView, ErrorView>(ErrorView::TokenEmpty)
        }),
        !config.allow_send ==> sending(config, channel, token) == Err::<FetchView, ErrorView>(
            ErrorView::SendDisabled,
        ),
        snowflake_value(id) is Err ==> earlier(config, channel, id, token) == Err::<
            FetchView,
            ErrorView,
        >(snowflake_value(id)->Err_0),
{
}

/// What is no row of one to twenty digits is no identity, and neither is a number of more than 64
/// bits; any other row of digits is one, with zeros before it or not.
pub proof fn law_no_snowflake(text: Seq<char>, i: int)
    ensures
        text.len() == 0 || size(text) > 20 ==> snowflake_value(text) == Err::<u64, ErrorView>(
            ErrorView::Snowflake,
        ),
        0 <= i < text.len() && !('0' <= text[i] <= '9') ==> snowflake_value(text) == Err::<
            u64,
            ErrorView,
        >(ErrorView::Snowflake),
        0 < text.len() <= 20 && digits(text) && value_of(text) > u64::MAX ==> snowflake_value(text)
            == Err::<u64, ErrorView>(ErrorView::SnowflakeRange),
        0 < text.len() <= 20 && digits(text) && value_of(text) <= u64::MAX ==> snowflake_value(text)
            is Ok && snowflake_value(text)->Ok_0 == value_of(text),
{
    if text.len() == 0 {
        lemma_size_len(text);
    }
    if digits(text) {
        lemma_size_of_digits(text);
    }
    if 0 <= i < text.len() && !('0' <= text[i] <= '9') {
        assert(!digit(text[i]));
    }
}

/// A message of another channel among those that came is told apart from one without an identity.
pub proof fn law_strays(message: MessageView, channel: Seq<char>)
    ensures
        snowflake_value(message.id) is Err ==> newest_received(seq![message], channel) == Err::<
            Seq<MessageView>,
            ErrorView,
        >(snowflake_value(message.id)->Err_0),
        snowflake_value(message.id) is Ok && message.channel_id.len() > 0 && message.channel_id
            != channel ==> newest_received(seq![message], channel) == Err::<
            Seq<MessageView>,
            ErrorView,
        >(ErrorView::WrongChannel),
{
    reveal_strlit("");
    reveal_with_fuel(first_stray, 2);
}

} // verus!
