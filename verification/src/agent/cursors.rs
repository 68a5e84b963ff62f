//! What the place of a channel stands for.
use crate::agent::discord::{
    arranged, asks, before_received, in_order, law_arranged, newest_received, rank, snowflake_value,
    MessageView,
};
use crate::agent::intake::{
    chat_begins, chat_channel, chat_closed, chat_identity, chat_looked, chat_marked, chat_on,
    chat_scanned, chat_seek, chat_started, chat_walk, full, seek_step, tail, SeekEventView,
    SeekNeedView, SeekStageView, SeekTurn,
};
use crate::agent::runtime::{enqueued, RuntimeView};
use crate::agent::state::{known, lemma_place, StateView, WorkView};
use crate::base::config::Config;
use crate::table::{found, law_holding, law_without};
use vstd::prelude::*;

verus! {

// ---------------------------------------------------------------------------
// What the service gives

/// A message of that identity is among those.
pub open spec fn holds(list: Seq<MessageView>, m: u64) -> bool {
    exists|i: int| 0 <= i < list.len() && rank((#[trigger] list[i]).id) == m
}

/// The identity is smaller than those of all the messages.
pub open spec fn below(list: Seq<MessageView>, m: u64) -> bool {
    forall|i: int| 0 <= i < list.len() ==> m < rank((#[trigger] list[i]).id)
}

/// The identity is greater than those of all the messages.
pub open spec fn above(list: Seq<MessageView>, m: u64) -> bool {
    forall|i: int| 0 <= i < list.len() ==> m > rank((#[trigger] list[i]).id)
}

/// The list is a reply to a request for the newest messages of a channel, where `posted` are the
/// identities of its messages: all are in it but those that come later and, where it has as many as
/// were asked for, those that are older.
pub open spec fn serves_newest(posted: Set<u64>, list: Seq<MessageView>) -> bool {
    forall|m: u64| #[trigger]
        posted.contains(m) ==> holds(list, m) || above(list, m) || (list.len() >= 100 && below(
            list,
            m,
        ))
}

/// The list is a reply to a request for the messages of a channel before `id`: all are in it but,
/// where it has as many as were asked for, those that are older.
pub open spec fn serves_before(posted: Set<u64>, id: Seq<char>, list: Seq<MessageView>) -> bool {
    forall|m: u64| #[trigger]
        posted.contains(m) && m < rank(id) ==> holds(list, m) || (list.len() >= 100 && below(
            list,
            m,
        ))
}

/// What comes in for a channel is what the service was asked for.
pub open spec fn chat_served(
    config: Config,
    state: StateView,
    stage: SeekStageView,
    event: SeekEventView,
    channel: Seq<char>,
    posted: Set<u64>,
) -> bool {
    match (stage, event) {
        (SeekStageView::ChatScanning { at, newest, .. }, SeekEventView::Messages(list)) =>
        chat_channel(config, at) == channel ==> match newest {
            Some(_) => serves_before(
                posted,
                found(state.discord_backfill, channel)->Some_0.1,
                list,
            ),
            None => serves_newest(posted, list),
        },
        _ => true,
    }
}

// ---------------------------------------------------------------------------
// What is accounted for

/// The messages between the two places of a channel that is not gone through were handled.
pub open spec fn accounted(
    state: StateView,
    channel: Seq<char>,
    posted: Set<u64>,
    handled: Set<u64>,
) -> bool {
    match (found(state.discord_cursors, channel), found(state.discord_backfill, channel)) {
        (Some(cursor), Some(scan)) => forall|m: u64| #[trigger]
            posted.contains(m) && rank(cursor) < m && rank(scan.1) <= m <= rank(scan.0)
                ==> handled.contains(m),
        (None, Some(_)) => false,
        _ => true,
    }
}

/// The messages up to `high` were handled, or are still to be gone through, or are older than all
/// that came.
pub open spec fn walking(
    state: StateView,
    channel: Seq<char>,
    posted: Set<u64>,
    handled: Set<u64>,
    cursor: Seq<char>,
    high: Seq<char>,
    finished: bool,
    rest: Seq<MessageView>,
) -> bool {
    &&& found(state.discord_cursors, channel) == Some(cursor)
    &&& found(state.discord_backfill, channel) is Some ==> found(
        state.discord_backfill,
        channel,
    )->Some_0.0 == high
    &&& in_order(rest, true)
    &&& forall|m: u64| #[trigger]
        posted.contains(m) && rank(cursor) < m <= rank(high) ==> handled.contains(m) || holds(
            rest,
            m,
        ) || (!finished && below(rest, m))
}

/// What holds of a channel while questions are looked for.
pub open spec fn chat_keeps(
    config: Config,
    rt: RuntimeView,
    stage: SeekStageView,
    channel: Seq<char>,
    posted: Set<u64>,
    handled: Set<u64>,
) -> bool {
    &&& accounted(rt.state, channel, posted, handled)
    &&& match stage {
        SeekStageView::ChatStarting { at } => chat_channel(config, at) == channel ==> found(
            rt.state.discord_cursors,
            channel,
        ) is None,
        SeekStageView::ChatScanning { at, cursor, newest } => chat_channel(config, at) == channel
            ==> {
            &&& found(rt.state.discord_cursors, channel) == Some(cursor)
            &&& match newest {
                Some(high) => found(rt.state.discord_backfill, channel) is Some && found(
                    rt.state.discord_backfill,
                    channel,
                )->Some_0.0 == high,
                None => found(rt.state.discord_backfill, channel) is None,
            }
        },
        SeekStageView::ChatLooking { at, cursor, high, finished, rest } => chat_channel(config, at)
            == channel ==> walking(
            rt.state,
            channel,
            posted,
            handled,
            cursor,
            high,
            finished,
            rest,
        ),
        SeekStageView::ChatQueued { at, cursor, high, finished, rest } => chat_channel(config, at)
            == channel ==> walking(
            rt.state,
            channel,
            posted,
            handled,
            cursor,
            high,
            finished,
            rest,
        ) && rest.len() > 0 && known(rt.state.jobs, chat_identity(channel, rest[0].id)),
        SeekStageView::ChatMarked { at, cursor, high, finished, rest } => chat_channel(config, at)
            == channel ==> walking(
            rt.state,
            channel,
            posted,
            handled,
            cursor,
            high,
            finished,
            rest,
        ),
        _ => true,
    }
}

/// What was handled after a step: the message that it left behind, if it did.
pub open spec fn handled_after(
    config: Config,
    turn: SeekTurn,
    channel: Seq<char>,
    handled: Set<u64>,
) -> Set<u64> {
    match turn.stage {
        SeekStageView::ChatMarked { at, .. } => if chat_channel(config, at) == channel && found(
            turn.rt.state.discord_backfill,
            channel,
        ) is Some {
            handled.insert(rank(found(turn.rt.state.discord_backfill, channel)->Some_0.1))
        } else {
            handled
        },
        _ => handled,
    }
}

/// The place of the channel moved over messages that were handled, and over no other.
pub open spec fn advanced(
    before: StateView,
    after: StateView,
    channel: Seq<char>,
    posted: Set<u64>,
    handled: Set<u64>,
) -> bool {
    match found(before.discord_cursors, channel) {
        None => true,
        Some(cursor) => match found(after.discord_cursors, channel) {
            None => false,
            Some(now) => forall|m: u64| #[trigger]
                posted.contains(m) && rank(cursor) < m <= rank(now) ==> handled.contains(m),
        },
    }
}

/// Where the place of the channel goes when all was handled: to the newest message of the round
/// that goes on, or of the reply that begins one.
pub open spec fn aim(config: Config, stage: SeekStageView, event: SeekEventView) -> Seq<char> {
    match (stage, event) {
        (SeekStageView::ChatMarked { high, .. }, _) => high,
        (SeekStageView::ChatScanning { at, cursor, newest }, SeekEventView::Messages(_)) =>
        match newest {
            Some(high) => high,
            None => if at_hand(config, stage, event).len() > 0 {
                at_hand(config, stage, event)[0].id
            } else {
                cursor
            },
        },
        _ => ""@,
    }
}

/// The messages that are gone through in a step.
pub open spec fn at_hand(config: Config, stage: SeekStageView, event: SeekEventView) -> Seq<
    MessageView,
> {
    match (stage, event) {
        (SeekStageView::ChatScanning { at, newest, .. }, SeekEventView::Messages(list)) => {
            let received = if newest is Some {
                before_received(list)
            } else {
                newest_received(list, chat_channel(config, at))
            };
            match received {
                Ok(list) => arranged(list, true),
                Err(_) => Seq::empty(),
            }
        },
        (SeekStageView::ChatLooking { rest, .. }, _) => rest,
        (SeekStageView::ChatQueued { rest, .. }, _) => rest,
        (SeekStageView::ChatMarked { rest, .. }, _) => rest,
        _ => Seq::empty(),
    }
}

/// A message was dealt with: there is nothing to answer, because the user is present or nobody
/// asks; or its answer is in the queue or was given.
pub open spec fn dealt_with(
    config: Config,
    rt: RuntimeView,
    channel: Seq<char>,
    message: MessageView,
    archived: bool,
) -> bool {
    ||| !rt.state.away
    ||| !asks(message, config.agent.discord.bot_id@)
    ||| archived
    ||| known(rt.state.jobs, chat_identity(channel, message.id))
}

/// What a step owes to a channel.
pub open spec fn step_owes(
    config: Config,
    before: RuntimeView,
    turn: SeekTurn,
    channel: Seq<char>,
    posted: Set<u64>,
    handled: Set<u64>,
    hand: Seq<MessageView>,
    archived: bool,
) -> bool {
    let now = handled_after(config, turn, channel, handled);
    &&& turn.stage.quest() is Chat
    &&& chat_keeps(config, turn.rt, turn.stage, channel, posted, now)
    &&& advanced(before.state, turn.rt.state, channel, posted, now)
    &&& match turn.stage {
        SeekStageView::ChatMarked { at, .. } => chat_channel(config, at) == channel ==> {
            &&& hand.len() > 0
            &&& found(turn.rt.state.discord_backfill, channel) is Some
            &&& found(turn.rt.state.discord_backfill, channel)->Some_0.1 == hand[0].id
            &&& dealt_with(config, turn.rt, channel, hand[0], archived)
        },
        _ => true,
    }
}

// ---------------------------------------------------------------------------
// Steps

proof fn lemma_rank(id: Seq<char>)
    requires
        snowflake_value(id) is Ok,
    ensures
        snowflake_value(id)->Ok_0 == rank(id),
{
    assert(id.len() > 0) by {
        if id.len() == 0 {
            crate::text::lemma_size_len(id);
        }
    }
    assert(crate::text::digit(id[0]));
}

proof fn lemma_same_messages(a: Seq<MessageView>, b: Seq<MessageView>)
    requires
        a.to_multiset() == b.to_multiset(),
    ensures
        a.len() == b.len(),
        forall|m: u64| #![trigger holds(b, m)] holds(a, m) ==> holds(b, m),
        forall|m: u64| #![trigger below(b, m)] below(a, m) ==> below(b, m),
        forall|m: u64| #![trigger above(b, m)] above(a, m) ==> above(b, m),
{
    broadcast use vstd::seq_lib::group_to_multiset_ensures;

    assert(a.to_multiset().len() == a.len());
    assert(b.to_multiset().len() == b.len());
    assert forall|m: u64| #![trigger holds(b, m)] holds(a, m) implies holds(b, m) by {
        let i = choose|i: int| 0 <= i < a.len() && rank((#[trigger] a[i]).id) == m;
        assert(a.contains(a[i]));
        assert(a.to_multiset().count(a[i]) > 0);
        assert(b.contains(a[i]));
        let k = choose|k: int| 0 <= k < b.len() && b[k] == a[i];
        assert(rank(b[k].id) == m);
    }
    assert forall|m: u64| #![trigger below(b, m)] below(a, m) implies below(b, m) by {
        assert forall|k: int| 0 <= k < b.len() implies m < rank((#[trigger] b[k]).id) by {
            assert(b.contains(b[k]));
            assert(b.to_multiset().count(b[k]) > 0);
            assert(a.contains(b[k]));
        }
    }
    assert forall|m: u64| #![trigger above(b, m)] above(a, m) implies above(b, m) by {
        assert forall|k: int| 0 <= k < b.len() implies m > rank((#[trigger] b[k]).id) by {
            assert(b.contains(b[k]));
            assert(b.to_multiset().count(b[k]) > 0);
            assert(a.contains(b[k]));
        }
    }
}

proof fn lemma_on(
    config: Config,
    before: RuntimeView,
    rt: RuntimeView,
    at: nat,
    channel: Seq<char>,
    posted: Set<u64>,
    handled: Set<u64>,
    hand: Seq<MessageView>,
    archived: bool,
)
    requires
        accounted(rt.state, channel, posted, handled),
        advanced(before.state, rt.state, channel, posted, handled),
    ensures
        step_owes(
            config,
            before,
            chat_on(config, rt, at),
            channel,
            posted,
            handled,
            hand,
            archived,
        ),
{
}

proof fn lemma_closed(
    config: Config,
    rt: RuntimeView,
    at: nat,
    high: Seq<char>,
    finished: bool,
    channel: Seq<char>,
    posted: Set<u64>,
    handled: Set<u64>,
    hand: Seq<MessageView>,
    archived: bool,
)
    requires
        accounted(rt.state, channel, posted, handled),
        finished && chat_channel(config, at) == channel ==> {
            &&& found(rt.state.discord_cursors, channel) is Some
            &&& forall|m: u64| #[trigger]
                posted.contains(m) && rank(found(rt.state.discord_cursors, channel)->Some_0) < m
                    <= rank(high) ==> handled.contains(m)
        },
    ensures
        step_owes(
            config,
            rt,
            chat_closed(config, rt, at, high, finished),
            channel,
            posted,
            handled,
            hand,
            archived,
        ),
        finished && chat_channel(config, at) == channel ==> found(
            chat_closed(config, rt, at, high, finished).rt.state.discord_cursors,
            channel,
        ) == Some(high),
        !(finished && chat_channel(config, at) == channel) ==> found(
            chat_closed(config, rt, at, high, finished).rt.state.discord_cursors,
            channel,
        ) == found(rt.state.discord_cursors, channel),
{
    if finished {
        let own = chat_channel(config, at);
        law_holding(rt.state.discord_cursors, own, high, channel);
        law_without(rt.state.discord_backfill, own, channel);
    } else {
        lemma_on(config, rt, rt, at + 1, channel, posted, handled, hand, archived);
    }
}

proof fn lemma_tail(
    state: StateView,
    now: StateView,
    channel: Seq<char>,
    posted: Set<u64>,
    handled: Set<u64>,
    cursor: Seq<char>,
    high: Seq<char>,
    finished: bool,
    rest: Seq<MessageView>,
)
    requires
        walking(state, channel, posted, handled, cursor, high, finished, rest),
        rest.len() > 0,
        found(now.discord_cursors, channel) == Some(cursor),
        found(now.discord_backfill, channel) == Some((high, rest[0].id)),
    ensures
        ({
            let more = handled.insert(rank(rest[0].id));
            &&& accounted(now, channel, posted, more)
            &&& walking(now, channel, posted, more, cursor, high, finished, tail(rest))
        }),
{
    let more = handled.insert(rank(rest[0].id));
    let fewer = tail(rest);
    assert forall|i: int, j: int| 0 <= i < j < fewer.len() implies !crate::agent::discord::after(
        fewer[i],
        fewer[j],
        true,
    ) by {
        assert(!crate::agent::discord::after(rest[i + 1], rest[j + 1], true));
    }
    assert forall|m: u64| #[trigger]
        posted.contains(m) && rank(cursor) < m <= rank(high) implies more.contains(m) || holds(
        fewer,
        m,
    ) || (!finished && below(fewer, m)) by {
        if !handled.contains(m) {
            if holds(rest, m) {
                let i = choose|i: int| 0 <= i < rest.len() && rank((#[trigger] rest[i]).id) == m;
                if i > 0 {
                    assert(fewer[i - 1] == rest[i]);
                }
            } else {
                assert forall|i: int| 0 <= i < fewer.len() implies m < rank(
                    (#[trigger] fewer[i]).id,
                ) by {
                    assert(fewer[i] == rest[i + 1]);
                }
            }
        }
    }
    assert forall|m: u64| #[trigger]
        posted.contains(m) && rank(cursor) < m && rank(rest[0].id) <= m <= rank(
            high,
        ) implies more.contains(m) by {
        if !handled.contains(m) {
            if holds(rest, m) {
                let i = choose|i: int| 0 <= i < rest.len() && rank((#[trigger] rest[i]).id) == m;
                if i > 0 {
                    assert(!crate::agent::discord::after(rest[0], rest[i], true));
                }
            } else {
                assert(m < rank(rest[0].id));
            }
        }
    }
}

proof fn lemma_marked(
    config: Config,
    rt: RuntimeView,
    at: nat,
    cursor: Seq<char>,
    high: Seq<char>,
    finished: bool,
    rest: Seq<MessageView>,
    channel: Seq<char>,
    posted: Set<u64>,
    handled: Set<u64>,
    archived: bool,
)
    requires
        accounted(rt.state, channel, posted, handled),
        chat_channel(config, at) == channel ==> walking(
            rt.state,
            channel,
            posted,
            handled,
            cursor,
            high,
            finished,
            rest,
        ),
        chat_channel(config, at) == channel && rest.len() > 0 ==> dealt_with(
            config,
            rt,
            channel,
            rest[0],
            archived,
        ),
    ensures
        step_owes(
            config,
            rt,
            chat_marked(config, rt, at, cursor, high, finished, rest),
            channel,
            posted,
            handled,
            rest,
            archived,
        ),
        chat_marked(config, rt, at, cursor, high, finished, rest).rt.state.discord_cursors
            == rt.state.discord_cursors,
{
    let own = chat_channel(config, at);
    let turn = chat_marked(config, rt, at, cursor, high, finished, rest);
    if rest.len() > 0 {
        law_holding(rt.state.discord_backfill, own, (high, rest[0].id), channel);
        if own == channel {
            lemma_tail(
                rt.state,
                turn.rt.state,
                channel,
                posted,
                handled,
                cursor,
                high,
                finished,
                rest,
            );
        }
    }
}

proof fn lemma_walk(
    config: Config,
    rt: RuntimeView,
    at: nat,
    cursor: Seq<char>,
    high: Seq<char>,
    finished: bool,
    rest: Seq<MessageView>,
    channel: Seq<char>,
    posted: Set<u64>,
    handled: Set<u64>,
)
    requires
        accounted(rt.state, channel, posted, handled),
        chat_channel(config, at) == channel ==> walking(
            rt.state,
            channel,
            posted,
            handled,
            cursor,
            high,
            finished,
            rest,
        ),
    ensures
        ({
            let turn = chat_walk(config, rt, at, cursor, high, finished, rest);
            &&& step_owes(config, rt, turn, channel, posted, handled, rest, false)
            &&& found(turn.rt.state.discord_cursors, channel) == found(
                rt.state.discord_cursors,
                channel,
            ) || chat_channel(config, at) == channel && found(
                turn.rt.state.discord_cursors,
                channel,
            ) == Some(high)
        }),
{
    if rest.len() == 0 {
        lemma_closed(config, rt, at, high, finished, channel, posted, handled, rest, false);
    } else if snowflake_value(rest[0].id) is Ok && snowflake_value(cursor) is Ok {
        lemma_rank(rest[0].id);
        lemma_rank(cursor);
        if rank(rest[0].id) <= rank(cursor) {
            if chat_channel(config, at) == channel {
                assert forall|m: u64| #[trigger]
                    posted.contains(m) && rank(cursor) < m <= rank(
                        high,
                    ) implies handled.contains(m) by {
                    if holds(rest, m) {
                        let i = choose|i: int|
                            0 <= i < rest.len() && rank((#[trigger] rest[i]).id) == m;
                        if i > 0 {
                            assert(!crate::agent::discord::after(rest[0], rest[i], true));
                        }
                    } else if below(rest, m) {
                        assert(m < rank(rest[0].id));
                    }
                }
            }
            lemma_closed(config, rt, at, high, true, channel, posted, handled, rest, false);
        } else if full(config, rt) {
            lemma_closed(config, rt, at, high, false, channel, posted, handled, rest, false);
        } else if !(rt.state.away && asks(rest[0], config.agent.discord.bot_id@)) {
            lemma_marked(
                config,
                rt,
                at,
                cursor,
                high,
                finished,
                rest,
                channel,
                posted,
                handled,
                false,
            );
        }
    }
}

proof fn lemma_scanned(
    config: Config,
    rt: RuntimeView,
    stage: SeekStageView,
    list: Seq<MessageView>,
    channel: Seq<char>,
    posted: Set<u64>,
    handled: Set<u64>,
)
    requires
        stage is ChatScanning,
        chat_keeps(config, rt, stage, channel, posted, handled),
        chat_served(config, rt.state, stage, SeekEventView::Messages(list), channel, posted),
    ensures
        ({
            let event = SeekEventView::Messages(list);
            let turn = chat_scanned(
                config,
                rt,
                stage->ChatScanning_at,
                stage->ChatScanning_cursor,
                stage->newest,
                list,
            );
            &&& step_owes(
                config,
                rt,
                turn,
                channel,
                posted,
                handled,
                at_hand(config, stage, event),
                false,
            )
            &&& found(turn.rt.state.discord_cursors, channel) == found(
                rt.state.discord_cursors,
                channel,
            ) || found(turn.rt.state.discord_cursors, channel) == Some(aim(config, stage, event))
        }),
{
    let at = stage->ChatScanning_at;
    let cursor = stage->ChatScanning_cursor;
    let received = if stage->newest is Some {
        before_received(list)
    } else {
        newest_received(list, chat_channel(config, at))
    };
    if received is Ok {
        let newest = arranged(received->Ok_0, true);
        law_arranged(list, false);
        law_arranged(received->Ok_0, true);
        lemma_same_messages(list, newest);
        let high = match stage->newest {
            Some(high) => high,
            None => if newest.len() > 0 {
                newest[0].id
            } else {
                cursor
            },
        };
        if chat_channel(config, at) == channel {
            assert forall|m: u64| #[trigger]
                posted.contains(m) && rank(cursor) < m <= rank(high) implies handled.contains(m)
                || holds(newest, m) || (newest.len() >= 100 && below(newest, m)) by {
                if stage->newest is None && newest.len() > 0 && above(newest, m) {
                    assert(m > rank(newest[0].id));
                }
            }
        }
        lemma_walk(
            config,
            rt,
            at,
            cursor,
            high,
            newest.len() < 100,
            newest,
            channel,
            posted,
            handled,
        );
    }
}

proof fn lemma_looked(
    config: Config,
    rt: RuntimeView,
    time: u64,
    stage: SeekStageView,
    archived: bool,
    channel: Seq<char>,
    posted: Set<u64>,
    handled: Set<u64>,
)
    requires
        stage is ChatLooking,
        chat_keeps(config, rt, stage, channel, posted, handled),
    ensures
        ({
            let rest = stage->ChatLooking_rest;
            let turn = chat_looked(
                config,
                rt,
                time,
                stage->ChatLooking_at,
                stage->ChatLooking_cursor,
                stage->ChatLooking_high,
                stage->ChatLooking_finished,
                rest,
                archived,
            );
            &&& step_owes(config, rt, turn, channel, posted, handled, rest, archived)
            &&& turn.rt.state.discord_cursors == rt.state.discord_cursors
        }),
{
    let rest = stage->ChatLooking_rest;
    let at = stage->ChatLooking_at;
    if rest.len() > 0 {
        let own = chat_channel(config, at);
        let id = chat_identity(own, rest[0].id);
        let work = WorkView::Discord { channel: own, message: rest[0] };
        let (now, res) = enqueued(
            config.agent.max_jobs as nat,
            rt,
            id,
            work,
            time,
            archived,
        );
        if res == Ok::<bool, crate::error::ErrorView>(true) {
            let last = rt.state.jobs.len() as int;
            lemma_place(now.state.jobs, id);
            assert(now.state.jobs[last].id == id);
        } else if res is Ok {
            lemma_marked(
                config,
                now,
                at,
                stage->ChatLooking_cursor,
                stage->ChatLooking_high,
                stage->ChatLooking_finished,
                rest,
                channel,
                posted,
                handled,
                archived,
            );
        }
    }
}

// ---------------------------------------------------------------------------
// Laws

/// The event says that the answer to a question was given before.
pub open spec fn said_archived(event: SeekEventView) -> bool {
    event == SeekEventView::Known(true)
}

/// Whatever comes in while questions are looked for, the place of a channel stays or goes to the
/// newest message, and it goes there only over messages that were handled, in this round or an
/// earlier one; a message is left behind only if it was dealt with, and which one is kept.
pub proof fn law_cursor_step(
    config: Config,
    rt: RuntimeView,
    time: u64,
    stage: SeekStageView,
    event: SeekEventView,
    channel: Seq<char>,
    posted: Set<u64>,
    handled: Set<u64>,
)
    requires
        stage.quest() is Chat,
        chat_keeps(config, rt, stage, channel, posted, handled),
        chat_served(config, rt.state, stage, event, channel, posted),
    ensures
        ({
            let turn = seek_step(config, rt, time, stage, event);
            let cursor = found(rt.state.discord_cursors, channel);
            let now = found(turn.rt.state.discord_cursors, channel);
            &&& step_owes(
                config,
                rt,
                turn,
                channel,
                posted,
                handled,
                at_hand(config, stage, event),
                said_archived(event),
            )
            &&& cursor is Some ==> now == cursor || now == Some(aim(config, stage, event))
        }),
{
    reveal(chat_seek);
    match (stage, event) {
        (SeekStageView::ChatStarting { at }, SeekEventView::Messages(list)) => {
            let own = chat_channel(config, at);
            let turn = chat_started(config, rt, at, list);
            if newest_received(list, own) is Ok {
                let sorted = newest_received(list, own)->Ok_0;
                let id = if sorted.len() > 0 {
                    sorted.last().id
                } else {
                    "0"@
                };
                law_holding(rt.state.discord_cursors, own, id, channel);
            }
        },
        (SeekStageView::ChatStarted { at }, SeekEventView::Done) => {
            lemma_on(config, rt, rt, at + 1, channel, posted, handled, Seq::empty(), false);
        },
        (SeekStageView::ChatScanning { at, cursor, newest }, SeekEventView::Messages(list)) => {
            lemma_scanned(config, rt, stage, list, channel, posted, handled);
        },
        (
            SeekStageView::ChatLooking { at, cursor, high, finished, rest },
            SeekEventView::Known(archived),
        ) => {
            lemma_looked(config, rt, time, stage, archived, channel, posted, handled);
        },
        (SeekStageView::ChatQueued { at, cursor, high, finished, rest }, SeekEventView::Done) => {
            lemma_marked(
                config,
                rt,
                at,
                cursor,
                high,
                finished,
                rest,
                channel,
                posted,
                handled,
                false,
            );
        },
        (SeekStageView::ChatMarked { at, cursor, high, finished, rest }, SeekEventView::Done) => {
            lemma_walk(
                config,
                rt,
                at,
                cursor,
                high,
                finished,
                rest,
                channel,
                posted,
                handled,
            );
        },
        (SeekStageView::ChatClosing { at }, SeekEventView::Done) => {
            lemma_on(config, rt, rt, at + 1, channel, posted, handled, Seq::empty(), false);
        },
        _ => {},
    }
}

/// The agent, where looking for questions stands, and what was handled, after some events.
pub open spec fn chat_run(
    config: Config,
    rt: RuntimeView,
    time: u64,
    stage: SeekStageView,
    events: Seq<SeekEventView>,
    channel: Seq<char>,
    handled: Set<u64>,
) -> (RuntimeView, SeekStageView, Set<u64>)
    decreases events.len(),
{
    if events.len() == 0 {
        (rt, stage, handled)
    } else {
        let turn = seek_step(config, rt, time, stage, events[0]);
        chat_run(
            config,
            turn.rt,
            time,
            turn.stage,
            events.drop_first(),
            channel,
            handled_after(config, turn, channel, handled),
        )
    }
}

/// What comes in for a channel is always what the service was asked for.
pub open spec fn run_served(
    config: Config,
    rt: RuntimeView,
    time: u64,
    stage: SeekStageView,
    events: Seq<SeekEventView>,
    channel: Seq<char>,
    posted: Set<u64>,
) -> bool
    decreases events.len(),
{
    events.len() == 0 || {
        let turn = seek_step(config, rt, time, stage, events[0]);
        &&& chat_served(config, rt.state, stage, events[0], channel, posted)
        &&& run_served(config, turn.rt, time, turn.stage, events.drop_first(), channel, posted)
    }
}

proof fn lemma_advanced(
    first: StateView,
    second: StateView,
    third: StateView,
    channel: Seq<char>,
    posted: Set<u64>,
    handled: Set<u64>,
    more: Set<u64>,
)
    requires
        handled.subset_of(more),
        advanced(first, second, channel, posted, handled),
        advanced(second, third, channel, posted, more),
    ensures
        advanced(first, third, channel, posted, more),
{
}

/// Over a whole search for questions, and so over as many as there are: the place of a channel
/// passes no message that was not handled. What is accounted for before is so afterwards, and
/// nothing else moves the places of a channel (`law_places_are_kept`), so that the next search,
/// after a restart too, goes on from there.
pub proof fn law_cursor(
    config: Config,
    rt: RuntimeView,
    time: u64,
    stage: SeekStageView,
    events: Seq<SeekEventView>,
    channel: Seq<char>,
    posted: Set<u64>,
    handled: Set<u64>,
)
    requires
        stage.quest() is Chat,
        chat_keeps(config, rt, stage, channel, posted, handled),
        run_served(config, rt, time, stage, events, channel, posted),
    ensures
        ({
            let last = chat_run(config, rt, time, stage, events, channel, handled);
            &&& handled.subset_of(last.2)
            &&& accounted(last.0.state, channel, posted, last.2)
            &&& advanced(rt.state, last.0.state, channel, posted, last.2)
        }),
    decreases events.len(),
{
    if events.len() > 0 {
        let turn = seek_step(config, rt, time, stage, events[0]);
        let now = handled_after(config, turn, channel, handled);
        law_cursor_step(config, rt, time, stage, events[0], channel, posted, handled);
        law_cursor(
            config,
            turn.rt,
            time,
            turn.stage,
            events.drop_first(),
            channel,
            posted,
            now,
        );
        let last = chat_run(config, rt, time, stage, events, channel, handled);
        lemma_advanced(
            rt.state,
            turn.rt.state,
            last.0.state,
            channel,
            posted,
            now,
            last.2,
        );
    }
}

/// A search for questions begins with what is accounted for, and changes nothing by beginning.
pub proof fn law_cursor_begins(
    config: Config,
    rt: RuntimeView,
    time: u64,
    channel: Seq<char>,
    posted: Set<u64>,
    handled: Set<u64>,
)
    requires
        accounted(rt.state, channel, posted, handled),
    ensures
        chat_begins(config, rt, time).rt == rt,
        chat_begins(config, rt, time).stage.quest() is Chat,
        chat_keeps(config, rt, chat_begins(config, rt, time).stage, channel, posted, handled),
{
}

/// A full queue loses no question: while a message is unread and the queue is full, the channel
/// keeps its places and the search ends; once there is room, the channel is gone on with before the
/// oldest message that was handled, and its newest stays the one that was noted.
pub proof fn law_cursor_waits(
    config: Config,
    rt: RuntimeView,
    at: nat,
    cursor: Seq<char>,
    high: Seq<char>,
    finished: bool,
    rest: Seq<MessageView>,
    later: RuntimeView,
)
    requires
        full(config, rt),
        rest.len() > 0,
        snowflake_value(rest[0].id) is Ok,
        snowflake_value(cursor) is Ok,
        snowflake_value(rest[0].id)->Ok_0 > snowflake_value(cursor)->Ok_0,
        at < config.agent.discord.channels@.len(),
        found(rt.state.discord_cursors, chat_channel(config, at)) == Some(cursor),
        found(rt.state.discord_backfill, chat_channel(config, at)) is Some,
        later.state.discord_cursors == rt.state.discord_cursors,
        later.state.discord_backfill == rt.state.discord_backfill,
        !full(config, later),
    ensures
        ({
            let channel = chat_channel(config, at);
            let scan = found(rt.state.discord_backfill, channel)->Some_0;
            let turn = chat_walk(config, rt, at, cursor, high, finished, rest);
            &&& turn.rt == rt
            &&& turn.need == SeekNeedView::Finish(Ok(()))
            &&& chat_on(config, later, at) == (SeekTurn {
                rt: later,
                stage: SeekStageView::ChatScanning { at, cursor, newest: Some(scan.0) },
                need: SeekNeedView::Before { channel, id: scan.1 },
            })
        }),
{
}

} // verus!
