//! A channel's conversation as one text.
use crate::error::{seen, Error, ErrorView};
use crate::failure::read_as;
use crate::text::{
    all_digits, byte_len, digit, digits, lemma_size_concat, lemma_size_len, lemma_size_push, same,
    size, width,
};
use vstd::prelude::*;

verus! {

/// A message of a channel.
#[derive(Debug)]
pub struct Line {
    pub timestamp: String,
    pub username: String,
    pub content: String,
}

/// A message on one line.
pub open spec fn line(message: Line) -> Seq<char> {
    message.timestamp@ + " "@ + message.username@ + ": "@ + message.content@ + "\n"@
}

/// The messages from the oldest on, of a list from the newest down.
pub open spec fn transcribed(messages: Seq<Line>) -> Seq<char>
    decreases messages.len(),
{
    if messages.len() == 0 {
        Seq::empty()
    } else {
        transcribed(messages.drop_first()) + line(messages[0])
    }
}

/// Some message says something.
pub open spec fn readable(messages: Seq<Line>) -> bool {
    exists|i: int| 0 <= i < messages.len() && (#[trigger] messages[i]).content@.len() > 0
}

/// The identity of a channel: up to twenty digits.
pub open spec fn channel_id(channel: Seq<char>) -> bool {
    size(channel) > 0 && size(channel) <= 20 && digits(channel)
}

/// Admits the identity of a channel.
pub fn check_channel(channel: &str) -> (res: Result<(), Error>)
    ensures
        seen(res) == if channel_id(channel@) {
            Ok(())
        } else {
            Err(ErrorView::ChannelId)
        },
{
    if byte_len(channel) > 0 && byte_len(channel) <= 20 && all_digits(channel) {
        Ok(())
    } else {
        Err(Error::ChannelId)
    }
}

/// A request for the newest messages of a channel.
#[derive(Debug)]
pub struct Listing {
    pub url: String,
    pub limit: String,
    pub authorization: String,
}

pub struct ListingView {
    pub url: Seq<char>,
    pub limit: Seq<char>,
    pub authorization: Seq<char>,
}

impl View for Listing {
    type V = ListingView;

    open spec fn view(&self) -> ListingView {
        ListingView {
            url: self.url@,
            limit: self.limit@,
            authorization: self.authorization@,
        }
    }
}

/// The request for a channel's conversation, with the token that the environment gives.
pub open spec fn listing_of(
    channel: Seq<char>,
    token: Result<Seq<char>, Seq<char>>,
) -> Result<ListingView, ErrorView> {
    if !channel_id(channel) {
        Err(ErrorView::ChannelId)
    } else {
        match token {
            Err(words) => Err(ErrorView::BotTokenUnset(words)),
            Ok(token) => Ok(
                ListingView {
                    url: "https://discord.com/api/v10/channels/"@ + channel + "/messages"@,
                    limit: "100"@,
                    authorization: "Bot "@ + token,
                },
            ),
        }
    }
}

/// The request for a channel's conversation, with the token that the environment gives.
pub fn listing(channel: &str, token: Result<String, String>) -> (res: Result<Listing, Error>)
    ensures
        (match res {
            Ok(listing) => Ok(listing@),
            Err(error) => Err(error@),
        }) == listing_of(channel@, read_as(token)),
{
    match check_channel(channel) {
        Err(error) => {
            return Err(error);
        },
        Ok(()) => {},
    }
    match token {
        Err(words) => Err(Error::BotTokenUnset(words)),
        Ok(token) => {
            let mut url = "https://discord.com/api/v10/channels/".to_owned();
            url.append(channel);
            url.append("/messages");
            let mut authorization = "Bot ".to_owned();
            authorization.append(token.as_str());
            Ok(Listing { url, limit: "100".to_owned(), authorization })
        },
    }
}

fn line_of(message: &Line) -> (res: String)
    ensures
        res@ == line(*message),
{
    let mut out = message.timestamp.clone();
    out.append(" ");
    out.append(message.username.as_str());
    out.append(": ");
    out.append(message.content.as_str());
    out.append("\n");
    out
}

fn is_readable(messages: &Vec<Line>) -> (res: bool)
    ensures
        res == readable(messages@),
{
    proof {
        reveal_strlit("");
    }
    let mut i: usize = 0;
    while i < messages.len()
        invariant
            i <= messages.len(),
            ""@.len() == 0,
            forall|j: int| 0 <= j < i ==> (#[trigger] messages@[j]).content@.len() == 0,
        decreases messages.len() - i,
    {
        assert(messages@[i as int].content@.len() == 0 ==> messages@[i as int].content@ =~= ""@);
        if !same(messages[i].content.as_str(), "") {
            return true;
        }
        i = i + 1;
    }
    false
}

/// What comes of a channel's newest messages: their conversation, in at most `max` bytes.
pub open spec fn conversed(messages: Seq<Line>, max: nat) -> Result<Seq<char>, ErrorView> {
    if messages.len() == 0 {
        Err(ErrorView::NoMessages)
    } else if !readable(messages) {
        Err(ErrorView::NoContent)
    } else if size(transcribed(messages)) > max {
        Err(ErrorView::ConversationSize)
    } else {
        Ok(transcribed(messages))
    }
}

proof fn lemma_transcribed_grows(messages: Seq<Line>, i: int)
    requires
        0 <= i <= messages.len(),
    ensures
        size(transcribed(messages.skip(i))) <= size(transcribed(messages)),
    decreases i,
{
    if i > 0 {
        lemma_transcribed_grows(messages, i - 1);
        let rest = messages.skip(i - 1);
        assert(rest.drop_first() =~= messages.skip(i));
        lemma_size_concat(transcribed(rest.drop_first()), line(rest[0]));
    } else {
        assert(messages.skip(0) =~= messages);
    }
}

/// The conversation of a channel's messages, which came from the newest down.
pub fn conversation(messages: &Vec<Line>, max_prompt: usize) -> (res: Result<String, Error>)
    ensures
        (match res {
            Ok(text) => Ok(text@),
            Err(error) => Err(error@),
        }) == conversed(messages@, max_prompt as nat),
{
    if messages.len() == 0 {
        return Err(Error::NoMessages);
    }
    if !is_readable(messages) {
        return Err(Error::NoContent);
    }
    let mut text = String::new();
    let mut i: usize = messages.len();
    assert(messages@.skip(i as int) =~= Seq::empty());
    assert(text@ =~= transcribed(messages@.skip(i as int)));
    while i > 0
        invariant
            i <= messages.len(),
            messages@.len() > 0,
            readable(messages@),
            text@ == transcribed(messages@.skip(i as int)),
            i < messages.len() ==> size(text@) <= max_prompt,
        decreases i,
    {
        i = i - 1;
        let more = line_of(&messages[i]);
        proof {
            let rest = messages@.skip(i as int);
            assert(rest.drop_first() =~= messages@.skip(i + 1));
            lemma_size_concat(text@, more@);
            lemma_transcribed_grows(messages@, i as int);
        }
        let used = byte_len(text.as_str());
        if used > max_prompt || byte_len(more.as_str()) > max_prompt - used {
            return Err(Error::ConversationSize);
        }
        text.append(more.as_str());
    }
    assert(messages@.skip(0) =~= messages@);
    Ok(text)
}

/// A transcript has the oldest message first, each on a line of its own, with when it was said and
/// by whom; the service gives the newest first.
pub proof fn law_transcript(messages: Seq<Line>, older: Line)
    ensures
        transcribed(messages.push(older)) == older.timestamp@ + " "@ + older.username@ + ": "@
            + older.content@ + "\n"@ + transcribed(messages),
    decreases messages.len(),
{
    let all = messages.push(older);
    if messages.len() == 0 {
        assert(all.drop_first() =~= Seq::<Line>::empty());
        assert(transcribed(all.drop_first()) =~= Seq::<char>::empty());
        assert(transcribed(all) =~= line(older) + transcribed(messages));
    } else {
        assert(all[0] == messages[0]);
        assert(all.drop_first() =~= messages.drop_first().push(older));
        law_transcript(messages.drop_first(), older);
        assert(transcribed(all) =~= line(older) + (transcribed(messages.drop_first()) + line(
            messages[0],
        )));
    }
}

/// A conversation is given whole or not at all: exactly if there are messages, one of them says
/// something, and all of them fit.
pub proof fn law_conversation_is_whole(messages: Seq<Line>, max: nat)
    ensures
        conversed(messages, max) is Ok <==> (exists|i: int|
            0 <= i < messages.len() && (#[trigger] messages[i]).content@.len() > 0) && size(
            transcribed(messages),
        ) <= max,
        conversed(messages, max) is Ok ==> conversed(messages, max)->Ok_0 == transcribed(messages),
        messages.len() == 0 ==> conversed(messages, max) == Err::<Seq<char>, ErrorView>(
            ErrorView::NoMessages,
        ),
{
}

/// The messages of a channel are asked for at Discord, a hundred of them, as the bot; a channel is
/// named by up to twenty digits.
pub proof fn law_listing(channel: Seq<char>, token: Result<Seq<char>, Seq<char>>)
    ensures
        listing_of(channel, token) is Ok <==> token is Ok && 0 < channel.len() <= 20 && forall|
            i: int,
        |
            0 <= i < channel.len() ==> '0' <= #[trigger] channel[i] <= '9',
        listing_of(channel, token) is Ok ==> ({
            let listing = listing_of(channel, token)->Ok_0;
            &&& listing.url == "https://discord.com/api/v10/channels/"@ + channel + "/messages"@
            &&& listing.limit == "100"@
            &&& listing.authorization == "Bot "@ + token->Ok_0
        }),
{
    lemma_size_len(channel);
    if digits(channel) {
        lemma_digits_are_bytes(channel);
        assert forall|i: int| 0 <= i < channel.len() implies '0' <= #[trigger] channel[i] <= '9' by {
            assert(digit(channel[i]));
        }
    }
    if forall|i: int| 0 <= i < channel.len() ==> '0' <= #[trigger] channel[i] <= '9' {
        assert(digits(channel));
    }
}

proof fn lemma_digits_are_bytes(s: Seq<char>)
    requires
        digits(s),
    ensures
        size(s) == s.len(),
    decreases s.len(),
{
    if s.len() == 0 {
        lemma_size_len(s);
    } else {
        let rest = s.drop_last();
        assert forall|i: int| 0 <= i < rest.len() implies digit(#[trigger] rest[i]) by {
            assert(rest[i] == s[i]);
        }
        lemma_digits_are_bytes(rest);
        assert(s =~= rest.push(s.last()));
        lemma_size_push(rest, s.last());
        assert(digit(s[s.len() - 1]));
        assert(width(s.last()) == 1);
    }
}

/// What stands in the way of a conversation is told: a channel that is none, a token that is
/// missing, no message that says anything, and more than fits.
pub proof fn law_no_conversation(
    messages: Seq<Line>,
    max: nat,
    channel: Seq<char>,
    token: Result<Seq<char>, Seq<char>>,
    i: int,
)
    ensures
        channel.len() == 0 || size(channel) > 20 || (0 <= i < channel.len() && !('0' <= channel[i]
            <= '9')) ==> listing_of(channel, token) == Err::<ListingView, ErrorView>(
            ErrorView::ChannelId,
        ),
        listing_of(channel, Ok(""@)) is Ok && token is Err ==> listing_of(channel, token) == Err::<
            ListingView,
            ErrorView,
        >(ErrorView::BotTokenUnset(token->Err_0)),
        messages.len() > 0 && (forall|j: int|
            0 <= j < messages.len() ==> (#[trigger] messages[j]).content@.len() == 0) ==> conversed(
            messages,
            max,
        ) == Err::<Seq<char>, ErrorView>(ErrorView::NoContent),
        0 <= i < messages.len() && messages[i].content@.len() > 0 && size(transcribed(messages))
            > max ==> conversed(messages, max) == Err::<Seq<char>, ErrorView>(
            ErrorView::ConversationSize,
        ),
{
    if channel.len() == 0 {
        crate::text::lemma_size_len(channel);
    }
    law_conversation_is_whole(messages, size(transcribed(messages)));
    law_conversation_is_whole(messages, max);
}

} // verus!
