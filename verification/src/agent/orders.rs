//! What comes of a command.
use crate::agent::commands::{
    command_step, commanded, job_commanded, last_moved, offers, switched, tasked, CommandEventView,
    CommandNeedView, CommandStageView, CommandTurn,
};
use crate::agent::config::CommandView;
use crate::agent::daemon::Controls;
use crate::agent::intake::identity;
use crate::agent::runtime::{
    law_known_phrases, phrases, status_json, table_json, understood, RuntimeView,
};
use crate::agent::state::{
    announcements_json, jobs_json, known, lemma_place, place, JobView, StateView, Status, WorkView,
};
use crate::base::config::Config;
use crate::error::ErrorView;
use crate::failure::FailureView;
use crate::json::{get_in, lemma_documents, text_in, JsonView};
use crate::table::found;
use crate::text::{begins, blank, clipped, law_clipped, numeral, size};
use vstd::prelude::*;

verus! {

// ---------------------------------------------------------------------------
// Switches

/// A command that is carried out at once: the state is kept, and then the user is answered.
pub open spec fn answers(
    config: Config,
    rt: RuntimeView,
    time: u64,
    turn: CommandTurn,
    response: JsonView,
) -> bool {
    &&& turn.rt == rt
    &&& turn.need == CommandNeedView::Save
    &&& command_step(config, rt, time, turn.stage, CommandEventView::Done) == (CommandTurn {
        rt,
        stage: CommandStageView::Finished,
        need: CommandNeedView::Respond(Ok(response)),
    })
    &&& forall|failure: FailureView| #[trigger]
        command_step(config, rt, time, turn.stage, CommandEventView::Failed(failure)).need
            == CommandNeedView::Respond(Err(failure))
}

/// The switches do what they are called: pausing and resuming, going away and coming back, and
/// stopping set what they name in the settings that last and in those in force, and nothing else.
pub proof fn law_switches(config: Config, rt: RuntimeView, time: u64, enabled: bool)
    ensures
        ({
            let turn = commanded(config, rt, CommandView::Pause, time);
            let now = turn.rt;
            &&& now.state.paused && now.controls.paused
            &&& now == (RuntimeView {
                state: StateView { paused: now.state.paused, ..rt.state },
                controls: Controls {
                    paused: now.controls.paused,
                    ..rt.controls
                },
                ..rt
            })
            &&& exists|response: JsonView|
                response.get("paused"@) == Some(JsonView::Bool(true)) && #[trigger] answers(
                    config,
                    now,
                    time,
                    turn,
                    response,
                )
        }),
        ({
            let turn = commanded(config, rt, CommandView::Resume, time);
            let now = turn.rt;
            &&& !now.state.paused && !now.controls.paused
            &&& now == (RuntimeView {
                state: StateView { paused: now.state.paused, ..rt.state },
                controls: Controls {
                    paused: now.controls.paused,
                    ..rt.controls
                },
                ..rt
            })
            &&& exists|response: JsonView|
                response.get("paused"@) == Some(JsonView::Bool(false)) && #[trigger] answers(
                    config,
                    now,
                    time,
                    turn,
                    response,
                )
        }),
        ({
            let turn = commanded(config, rt, CommandView::Away { enabled }, time);
            let now = turn.rt;
            &&& now.state.away == enabled && now.controls.away == enabled
            &&& now == (RuntimeView {
                state: StateView { away: now.state.away, ..rt.state },
                controls: Controls { away: now.controls.away, ..rt.controls },
                ..rt
            })
            &&& exists|response: JsonView|
                response.get("away"@) == Some(JsonView::Bool(enabled)) && #[trigger] answers(
                    config,
                    now,
                    time,
                    turn,
                    response,
                )
        }),
        ({
            let turn = commanded(config, rt, CommandView::Stop, time);
            let now = turn.rt;
            &&& now.stopped && now.controls.stop
            &&& now == (RuntimeView {
                stopped: now.stopped,
                controls: Controls { stop: now.controls.stop, ..rt.controls },
                ..rt
            })
            &&& exists|response: JsonView|
                response.get("stopping"@) == Some(JsonView::Bool(true)) && #[trigger] answers(
                    config,
                    now,
                    time,
                    turn,
                    response,
                )
        }),
{
    reveal(switched);
    lemma_documents();
    let paused = JsonView::object().with("paused"@, JsonView::Bool(true));
    let resumed = JsonView::object().with("paused"@, JsonView::Bool(false));
    let away = JsonView::object().with("away"@, JsonView::Bool(enabled));
    let stopping = JsonView::object().with("stopping"@, JsonView::Bool(true));
    let turn = commanded(config, rt, CommandView::Pause, time);
    assert(answers(config, turn.rt, time, turn, paused));
    let turn = commanded(config, rt, CommandView::Resume, time);
    assert(answers(config, turn.rt, time, turn, resumed));
    let turn = commanded(config, rt, CommandView::Away { enabled }, time);
    assert(answers(config, turn.rt, time, turn, away));
    let turn = commanded(config, rt, CommandView::Stop, time);
    assert(answers(config, turn.rt, time, turn, stopping));
}

/// A rundown makes everything due at once: the next round, the next look for work and the next
/// research; to listen and to report change nothing.
pub proof fn law_rundown(config: Config, rt: RuntimeView, time: u64)
    ensures
        ({
            let turn = commanded(config, rt, CommandView::Rundown, time);
            let now = turn.rt.state;
            &&& now.next_rundown == 0 && now.next_research == 0 && now.next_poll == 0
            &&& turn.rt == rt.with_state(
                StateView {
                    next_rundown: now.next_rundown,
                    next_research: now.next_research,
                    next_poll: now.next_poll,
                    ..rt.state
                },
            )
            &&& exists|response: JsonView|
                response.get("scheduled"@) == Some(JsonView::Bool(true)) && #[trigger] answers(
                    config,
                    turn.rt,
                    time,
                    turn,
                    response,
                )
        }),
        ({
            let turn = commanded(config, rt, CommandView::Listen, time);
            exists|response: JsonView|
                response.get("listen"@) == Some(JsonView::Bool(true)) && #[trigger] answers(
                    config,
                    rt,
                    time,
                    turn,
                    response,
                )
        }),
        ({
            let turn = commanded(config, rt, CommandView::Status, time);
            exists|response: JsonView|
                tells_status(response, rt.state) && #[trigger] answers(
                    config,
                    rt,
                    time,
                    turn,
                    response,
                )
        }),
{
    reveal(switched);
    lemma_documents();
    let scheduled = JsonView::object().with("scheduled"@, JsonView::Bool(true));
    let listen = JsonView::object().with("listen"@, JsonView::Bool(true));
    let turn = commanded(config, rt, CommandView::Rundown, time);
    assert(answers(config, turn.rt, time, turn, scheduled));
    let turn = commanded(config, rt, CommandView::Listen, time);
    assert(answers(config, turn.rt, time, turn, listen));
    let turn = commanded(config, rt, CommandView::Status, time);
    law_status(rt.state);
    assert(answers(config, turn.rt, time, turn, status_json(rt.state)));
}

/// A report tells how the agent stands: what it was told to do, what waits, what is done, and what
/// the day has cost.
pub open spec fn tells_status(doc: JsonView, state: StateView) -> bool {
    &&& doc.get("paused"@) == Some(JsonView::Bool(state.paused))
    &&& doc.get("away"@) == Some(JsonView::Bool(state.away))
    &&& doc.get("jobs"@) == Some(jobs_json(state.jobs))
    &&& doc.get("recent"@) == Some(jobs_json(state.recent))
    &&& doc.get("announcements"@) == Some(announcements_json(state.announcements))
    &&& doc.get("model_calls_today"@) == Some(JsonView::number(state.model_calls as nat))
    &&& doc.get("reserved_tokens_today"@) == Some(
        JsonView::number(state.token_reservations as nat),
    )
    &&& doc.get("next_rundown"@) == Some(JsonView::number(state.next_rundown as nat))
    &&& doc.get("connector_errors"@) is Some
    &&& forall|name: Seq<char>| #[trigger]
        get_in(doc.get("connector_errors"@), name) == (match found(state.connector_errors, name) {
            Some(words) => Some(JsonView::Text(words)),
            None => None,
        })
}

proof fn lemma_found_last<V>(entries: Seq<(Seq<char>, V)>, name: Seq<char>)
    requires
        entries.len() > 0,
    ensures
        found(entries, name) == (if found(entries.drop_last(), name) is Some {
            found(entries.drop_last(), name)
        } else if entries.last().0 == name {
            Some(entries.last().1)
        } else {
            None
        }),
    decreases entries.len(),
{
    reveal_with_fuel(found, 2);
    if entries.len() > 1 {
        lemma_found_last(entries.drop_first(), name);
        assert(entries.drop_first().drop_last() =~= entries.drop_last().drop_first());
    }
}

proof fn lemma_table(entries: Seq<(Seq<char>, Seq<char>)>, name: Seq<char>)
    ensures
        table_json(entries) is Object,
        table_json(entries).get(name) == (match found(entries, name) {
            Some(words) => Some(JsonView::Text(words)),
            None => None,
        }),
    decreases entries.len(),
{
    lemma_documents();
    if entries.len() > 0 {
        lemma_table(entries.drop_last(), name);
        lemma_found_last(entries, name);
    }
}

/// The report of a state tells it.
pub proof fn law_status(state: StateView)
    ensures
        tells_status(status_json(state), state),
{
    reveal(status_json);
    lemma_documents();
    lemma_status_names();
    let doc = status_json(state);
    assert forall|name: Seq<char>| #[trigger] get_in(doc.get("connector_errors"@), name) == (
    match found(state.connector_errors, name) {
        Some(words) => Some(JsonView::Text(words)),
        None => None,
    }) by {
        lemma_table(state.connector_errors, name);
    }
}

/// The documents of jobs stand in the order of the jobs, one for each, and tell what each is, how
/// it stands, and what came of it.
pub proof fn law_jobs_document(jobs: Seq<JobView>)
    ensures
        jobs_json(jobs) is List,
        jobs_json(jobs)->List_0.len() == jobs.len(),
        forall|i: int|
            0 <= i < jobs.len() ==> {
                let doc = #[trigger] jobs_json(jobs)->List_0[i];
                &&& text_in(doc.get("id"@)) == Some(jobs[i].id)
                &&& text_in(doc.get("status"@)) == Some(
                    match jobs[i].status {
                        Status::Pending => "pending"@,
                        Status::Running => "running"@,
                        Status::Review => "review"@,
                        Status::Done => "done"@,
                    },
                )
                &&& doc.get("attempts"@) == Some(JsonView::number(jobs[i].attempts as nat))
                &&& doc.get("calls"@) == Some(JsonView::number(jobs[i].calls as nat))
                &&& doc.get("next_attempt"@) == Some(JsonView::number(jobs[i].next_attempt as nat))
                &&& doc.get("created"@) == Some(JsonView::number(jobs[i].created as nat))
                &&& doc.get("updated"@) == Some(JsonView::number(jobs[i].updated as nat))
                &&& doc.get("work"@) == Some(jobs[i].work.json())
                &&& doc.get("result"@) == Some(
                    match jobs[i].result {
                        Some(result) => result,
                        None => JsonView::Null,
                    },
                )
                &&& doc.get("action"@) == Some(
                    match jobs[i].action {
                        Some(action) => action,
                        None => JsonView::Null,
                    },
                )
                &&& doc.get("proposal"@) == Some(
                    match jobs[i].proposal {
                        Some(proposal) => proposal,
                        None => JsonView::Null,
                    },
                )
                &&& doc.get("policy"@) == Some(
                    match jobs[i].policy {
                        Some(policy) => policy,
                        None => JsonView::Null,
                    },
                )
                &&& doc.get("error"@) == Some(
                    match jobs[i].error {
                        Some(error) => JsonView::Text(error),
                        None => JsonView::Null,
                    },
                )
            },
    decreases jobs.len(),
{
    lemma_documents();
    if jobs.len() > 0 {
        law_jobs_document(jobs.drop_last());
        lemma_job_names();
        let list = jobs_json(jobs)->List_0;
        let before = jobs_json(jobs.drop_last())->List_0;
        assert(list =~= before.push(jobs.last().json()));
    }
}

// ---------------------------------------------------------------------------
// Work

/// Work is queued: unless it was done before or waits already, a new job is put behind the others,
/// due at once; the queue may be full. The user gets the job's identity either way.
pub open spec fn queues(
    config: Config,
    rt: RuntimeView,
    time: u64,
    turn: CommandTurn,
    work: WorkView,
) -> bool {
    &&& turn.rt == rt
    &&& turn.stage is Looking
    &&& turn.need == CommandNeedView::LookUp("activity-"@ + turn.stage->id + ".json"@)
    &&& {
        let id = turn.stage->id;
        let job = JobView {
            id,
            work,
            status: Status::Pending,
            attempts: 0,
            calls: 0,
            next_attempt: time,
            created: time,
            updated: time,
            proposal: None,
            policy: None,
            action: None,
            result: None,
            error: None,
        };
        let waits = exists|i: int|
            0 <= i < rt.state.jobs.len() && (#[trigger] rt.state.jobs[i]).id == id;
        let full = rt.state.jobs.len() >= config.agent.max_jobs;
        let found = command_step(config, rt, time, turn.stage, CommandEventView::Known(true));
        let fresh = command_step(config, rt, time, turn.stage, CommandEventView::Known(false));
        let kept = command_step(config, fresh.rt, time, fresh.stage, CommandEventView::Done);
        &&& exists|response: JsonView|
            {
                &&& text_in(response.get("job_id"@)) == Some(id)
                &&& #[trigger] answers(config, rt, time, found, response)
                &&& waits ==> answers(config, rt, time, fresh, response)
                &&& !waits && !full ==> answers(config, fresh.rt, time, kept, response)
            }
        &&& !waits && full ==> fresh.rt == rt && fresh.need == CommandNeedView::Respond(
            Err(FailureView::Refused(ErrorView::QueueFull)),
        )
        &&& !waits && !full ==> fresh.rt == rt.with_jobs(rt.state.jobs.push(job)) && fresh.need
            == CommandNeedView::Save
    }
}

proof fn lemma_queues(
    config: Config,
    rt: RuntimeView,
    time: u64,
    id: Seq<char>,
    work: WorkView,
    response: JsonView,
)
    requires
        text_in(response.get("job_id"@)) == Some(id),
    ensures
        queues(
            config,
            rt,
            time,
            offers(rt, id, work, response),
            work,
        ),
{
    let turn = offers(rt, id, work, response);
    let found = command_step(config, rt, time, turn.stage, CommandEventView::Known(true));
    lemma_place(rt.state.jobs, id);
    let waits = exists|i: int|
        0 <= i < rt.state.jobs.len() && (#[trigger] rt.state.jobs[i]).id == id;
    assert(waits == known(rt.state.jobs, id));
    assert(answers(config, rt, time, found, response));
}

/// A request is queued as the user said it, if it says something and is not too long.
pub proof fn law_request_is_queued(config: Config, rt: RuntimeView, time: u64, text: Seq<char>)
    ensures
        ({
            let turn = commanded(config, rt, CommandView::Ask { text }, time);
            if blank(text) || size(text) > 16000 {
                turn.rt == rt && turn.need == CommandNeedView::Respond(
                    Err(FailureView::Refused(ErrorView::RequestLength)),
                )
            } else {
                queues(config, rt, time, turn, WorkView::Ask { text }) && turn.stage->id == identity(
                    "ask:"@ + numeral(time as nat) + ":"@ + numeral(rt.state.jobs.len()) + ":"@ + text,
                )
            }
        }),
{
    reveal(tasked);
    lemma_documents();
    let turn = commanded(config, rt, CommandView::Ask { text }, time);
    if !(blank(text) || size(text) > 16000) {
        lemma_queues(
            config,
            rt,
            time,
            turn.stage->id,
            WorkView::Ask { text },
            turn.stage->Looking_response,
        );
    }
}

/// A search is queued with the user's query, if it says something and is not too long.
pub proof fn law_search_is_queued(config: Config, rt: RuntimeView, time: u64, query: Seq<char>)
    ensures
        ({
            let turn = commanded(config, rt, CommandView::Research { query }, time);
            if blank(query) || size(query) > 512 {
                turn.rt == rt && turn.need == CommandNeedView::Respond(
                    Err(FailureView::Refused(ErrorView::QueryLength)),
                )
            } else {
                queues(config, rt, time, turn, WorkView::Research { query }) && turn.stage->id
                    == identity("manual-research:"@ + numeral(time as nat) + ":"@ + query)
            }
        }),
{
    reveal(tasked);
    lemma_documents();
    let turn = commanded(config, rt, CommandView::Research { query }, time);
    if !(blank(query) || size(query) > 512) {
        lemma_queues(
            config,
            rt,
            time,
            turn.stage->id,
            WorkView::Research { query },
            turn.stage->Looking_response,
        );
    }
}

/// An undo is queued for the job that was named.
pub proof fn law_undo_is_queued(config: Config, rt: RuntimeView, time: u64, job_id: Seq<char>)
    ensures
        queues(
            config,
            rt,
            time,
            commanded(config, rt, CommandView::Undo { job_id }, time),
            WorkView::Undo { job_id },
        ),
        commanded(config, rt, CommandView::Undo { job_id }, time).stage->id == identity(
            "undo:"@ + job_id,
        ),
{
    reveal(tasked);
    lemma_documents();
    let turn = commanded(config, rt, CommandView::Undo { job_id }, time);
    lemma_queues(
        config,
        rt,
        time,
        turn.stage->id,
        WorkView::Undo { job_id },
        turn.stage->Looking_response,
    );
}

/// A finished job moved a message.
pub open spec fn moved_a_message(job: JobView) -> bool {
    job.work is Email && get_in(job.result, "moved"@) == Some(JsonView::Bool(true))
}

/// To undo the last move is to undo the newest of the finished jobs that moved a message; without
/// one there is nothing to undo.
pub proof fn law_last_move_is_undone(config: Config, rt: RuntimeView, time: u64)
    ensures
        ({
            let turn = commanded(config, rt, CommandView::UndoLast, time);
            let recent = rt.state.recent;
            &&& (forall|i: int| 0 <= i < recent.len() ==> !moved_a_message(#[trigger] recent[i]))
                ==> turn.rt == rt && turn.need == CommandNeedView::Respond(
                Err(FailureView::Refused(ErrorView::NoRecentMove)),
            )
            &&& forall|i: int|
                0 <= i < recent.len() && moved_a_message(#[trigger] recent[i]) && (forall|j: int|
                    i < j < recent.len() ==> !moved_a_message(#[trigger] recent[j])) ==> queues(
                    config,
                    rt,
                    time,
                    turn,
                    WorkView::Undo { job_id: recent[i].id },
                ) && turn.stage->id == identity("undo:"@ + recent[i].id)
        }),
{
    reveal(tasked);
    lemma_documents();
    let turn = commanded(config, rt, CommandView::UndoLast, time);
    let recent = rt.state.recent;
    lemma_last_moved(recent);
    assert forall|i: int|
        0 <= i < recent.len() && moved_a_message(#[trigger] recent[i]) && (forall|j: int|
            i < j < recent.len() ==> !moved_a_message(#[trigger] recent[j])) implies queues(
        config,
        rt,
        time,
        turn,
        WorkView::Undo { job_id: recent[i].id },
    ) && turn.stage->id == identity("undo:"@ + recent[i].id) by {
        assert(last_moved(recent) == Some(recent[i].id));
        lemma_queues(
            config,
            rt,
            time,
            turn.stage->id,
            WorkView::Undo { job_id: recent[i].id },
            turn.stage->Looking_response,
        );
    }
}

proof fn lemma_last_moved(recent: Seq<JobView>)
    ensures
        (forall|i: int| 0 <= i < recent.len() ==> !moved_a_message(#[trigger] recent[i]))
            ==> last_moved(recent) is None,
        forall|i: int|
            0 <= i < recent.len() && moved_a_message(#[trigger] recent[i]) && (forall|j: int|
                i < j < recent.len() ==> !moved_a_message(#[trigger] recent[j])) ==> last_moved(
                recent,
            ) == Some(recent[i].id),
    decreases recent.len(),
{
    if recent.len() > 0 {
        let rest = recent.drop_last();
        lemma_last_moved(rest);
        if forall|i: int| 0 <= i < recent.len() ==> !moved_a_message(#[trigger] recent[i]) {
            assert(!moved_a_message(recent[recent.len() - 1]));
            assert forall|i: int| 0 <= i < rest.len() implies !moved_a_message(
                #[trigger] rest[i],
            ) by {
                assert(rest[i] == recent[i]);
            }
        }
        assert forall|i: int|
            0 <= i < recent.len() && moved_a_message(#[trigger] recent[i]) && (forall|j: int|
                i < j < recent.len() ==> !moved_a_message(#[trigger] recent[j])) implies last_moved(
            recent,
        ) == Some(recent[i].id) by {
            if i < recent.len() - 1 {
                assert(!moved_a_message(recent[recent.len() - 1]));
                assert(rest[i] == recent[i]);
                assert forall|j: int| i < j < rest.len() implies !moved_a_message(
                    #[trigger] rest[j],
                ) by {
                    assert(rest[j] == recent[j]);
                }
            }
        }
    }
}

/// A summary is queued of the channel that was named, or of the first that the settings name; of
/// no other.
pub proof fn law_summary_is_queued(
    config: Config,
    rt: RuntimeView,
    time: u64,
    channel: Option<Seq<char>>,
)
    ensures
        ({
            let turn = commanded(config, rt, CommandView::SummarizeDiscord { channel }, time);
            let channels = config.agent.discord.channels@;
            match channel {
                Some(named) => if exists|i: int|
                    0 <= i < channels.len() && (#[trigger] channels[i])@ == named {
                    queues(config, rt, time, turn, WorkView::DiscordSummary { channel: named })
                        && turn.stage->id == identity(
                        "summary:"@ + numeral(time as nat) + ":"@ + named,
                    )
                } else {
                    turn.rt == rt && turn.need == CommandNeedView::Respond(
                        Err(FailureView::Refused(ErrorView::ChannelUnknown)),
                    )
                },
                None => if channels.len() > 0 {
                    queues(
                        config,
                        rt,
                        time,
                        turn,
                        WorkView::DiscordSummary { channel: channels[0]@ },
                    ) && turn.stage->id == identity(
                        "summary:"@ + numeral(time as nat) + ":"@ + channels[0]@,
                    )
                } else {
                    turn.rt == rt && turn.need == CommandNeedView::Respond(
                        Err(FailureView::Refused(ErrorView::NoChannel)),
                    )
                },
            }
        }),
{
    reveal(tasked);
    lemma_documents();
    let turn = commanded(config, rt, CommandView::SummarizeDiscord { channel }, time);
    let channels = config.agent.discord.channels@;
    if channel is None && channels.len() > 0 {
        assert(channels[0]@ == channels[0]@);
    }
    if turn.stage is Looking {
        lemma_queues(
            config,
            rt,
            time,
            turn.stage->id,
            turn.stage->work,
            turn.stage->Looking_response,
        );
    }
}

/// A message can be decided anew: the work of the finished job that was named is queued again as a
/// job of its own, unless it was no message or was moved.
pub proof fn law_decided_anew(
    config: Config,
    rt: RuntimeView,
    time: u64,
    job_id: Seq<char>,
    original: JobView,
)
    ensures
        ({
            let turn = commanded(config, rt, CommandView::Reprocess { job_id }, time);
            let next = command_step(config, rt, time, turn.stage, CommandEventView::Job(original));
            &&& turn.rt == rt
            &&& turn.need == (CommandNeedView::Activity {
                object: "activity-"@ + job_id + ".json"@,
            })
            &&& original.work is Email && original.action is None ==> queues(
                config,
                rt,
                time,
                next,
                original.work,
            ) && text_in(next.stage->Looking_response.get("reprocessing"@)) == Some(job_id)
                && next.stage->id == identity(
                "reprocess:"@ + job_id + ":"@ + numeral(time as nat) + ":"@
                    + config.agent.email.policy@,
            )
            &&& !(original.work is Email && original.action is None) ==> next.rt == rt && next.need
                == CommandNeedView::Respond(Err(FailureView::Refused(ErrorView::OnlyReprocess)))
        }),
{
    reveal(tasked);
    lemma_documents();
    lemma_order_names();
    let turn = commanded(config, rt, CommandView::Reprocess { job_id }, time);
    let next = command_step(config, rt, time, turn.stage, CommandEventView::Job(original));
    if next.stage is Looking {
        lemma_queues(
            config,
            rt,
            time,
            next.stage->id,
            original.work,
            next.stage->Looking_response,
        );
    }
}

// ---------------------------------------------------------------------------
// Jobs that wait for the user

proof fn lemma_at(jobs: Seq<JobView>, id: Seq<char>, i: int)
    requires
        0 <= i < jobs.len(),
        jobs[i].id == id,
        forall|j: int| 0 <= j < i ==> (#[trigger] jobs[j]).id != id,
    ensures
        known(jobs, id),
        place(jobs, id) == i,
{
    lemma_place(jobs, id);
    let k = place(jobs, id) as int;
    if k < i {
        assert(jobs[k].id != id);
    }
}

/// A job is tried again from the beginning, due at once and with all its attempts and calls: a
/// decision that was not acted on is made anew, one that was acted on is kept. Only a reply that
/// may have been sent is not tried again.
pub proof fn law_retry(config: Config, rt: RuntimeView, time: u64, i: int)
    requires
        0 <= i < rt.state.jobs.len(),
        forall|j: int|
            0 <= j < i ==> (#[trigger] rt.state.jobs[j]).id != rt.state.jobs[i].id,
    ensures
        ({
            let job = rt.state.jobs[i];
            let turn = commanded(config, rt, CommandView::Retry { job_id: job.id }, time);
            if job.work is Discord && job.action is Some {
                turn.rt == rt && turn.need == CommandNeedView::Respond(
                    Err(FailureView::Refused(ErrorView::OnlyReconcile)),
                )
            } else {
                let now = turn.rt.state.jobs[i];
                &&& now.status == Status::Pending && now.attempts == 0 && now.calls == 0
                &&& now.next_attempt == time && now.error is None
                &&& job.action is None ==> now.proposal is None
                &&& job.action is Some ==> now.proposal == job.proposal
                &&& now == (JobView {
                    status: now.status,
                    attempts: now.attempts,
                    calls: now.calls,
                    next_attempt: now.next_attempt,
                    error: now.error,
                    proposal: now.proposal,
                    ..job
                })
                &&& turn.rt == rt.with_jobs(rt.state.jobs.update(i, now))
                &&& exists|response: JsonView|
                    text_in(response.get("retrying"@)) == Some(job.id) && #[trigger] answers(
                        config,
                        turn.rt,
                        time,
                        turn,
                        response,
                    )
            }
        }),
{
    reveal(job_commanded);
    lemma_documents();
    let job = rt.state.jobs[i];
    lemma_at(rt.state.jobs, job.id, i);
    let turn = commanded(config, rt, CommandView::Retry { job_id: job.id }, time);
    let response = JsonView::object().with("retrying"@, JsonView::Text(job.id));
    if !(job.work is Discord && job.action is Some) {
        assert(answers(config, turn.rt, time, turn, response));
    }
}

/// A reply that may have been sent is looked for at once, and its record stays; there is nothing
/// to look for in any other job.
pub proof fn law_reconcile(config: Config, rt: RuntimeView, time: u64, i: int)
    requires
        0 <= i < rt.state.jobs.len(),
        forall|j: int|
            0 <= j < i ==> (#[trigger] rt.state.jobs[j]).id != rt.state.jobs[i].id,
    ensures
        ({
            let job = rt.state.jobs[i];
            let turn = commanded(config, rt, CommandView::Reconcile { job_id: job.id }, time);
            if !(job.work is Discord && job.action is Some) {
                turn.rt == rt && turn.need == CommandNeedView::Respond(
                    Err(FailureView::Refused(ErrorView::NoUncertainSend)),
                )
            } else {
                let now = turn.rt.state.jobs[i];
                &&& now.status == Status::Pending && now.attempts == 0 && now.next_attempt == time
                &&& now == (JobView {
                    status: now.status,
                    attempts: now.attempts,
                    next_attempt: now.next_attempt,
                    ..job
                })
                &&& turn.rt == rt.with_jobs(rt.state.jobs.update(i, now))
                &&& exists|response: JsonView|
                    text_in(response.get("reconciling"@)) == Some(job.id) && #[trigger] answers(
                        config,
                        turn.rt,
                        time,
                        turn,
                        response,
                    )
            }
        }),
{
    reveal(job_commanded);
    lemma_documents();
    let job = rt.state.jobs[i];
    lemma_at(rt.state.jobs, job.id, i);
    let turn = commanded(config, rt, CommandView::Reconcile { job_id: job.id }, time);
    let response = JsonView::object().with("reconciling"@, JsonView::Text(job.id));
    if job.work is Discord && job.action is Some {
        assert(answers(config, turn.rt, time, turn, response));
    }
}

/// A job that is dismissed is done, without anything more being done about it: its result says so
/// and what it failed of last, and then it is put with the finished jobs.
pub proof fn law_dismiss(config: Config, rt: RuntimeView, time: u64, i: int)
    requires
        0 <= i < rt.state.jobs.len(),
        forall|j: int|
            0 <= j < i ==> (#[trigger] rt.state.jobs[j]).id != rt.state.jobs[i].id,
    ensures
        ({
            let job = rt.state.jobs[i];
            let turn = commanded(config, rt, CommandView::Dismiss { job_id: job.id }, time);
            let now = turn.rt.state.jobs[i];
            &&& now.status == Status::Done
            &&& now.result is Some
            &&& now.result->0.get("dismissed"@) == Some(JsonView::Bool(true))
            &&& now.result->0.get("previous_error"@) == Some(
                match job.error {
                    Some(error) => JsonView::Text(error),
                    None => JsonView::Null,
                },
            )
            &&& now == (JobView { status: now.status, result: now.result, ..job })
            &&& turn.rt == rt.with_jobs(rt.state.jobs.update(i, now))
            &&& turn.need == CommandNeedView::Archive
            &&& exists|response: JsonView|
                text_in(response.get("dismissed"@)) == Some(job.id) && #[trigger] answers(
                    config,
                    turn.rt,
                    time,
                    command_step(config, turn.rt, time, turn.stage, CommandEventView::Done),
                    response,
                )
        }),
{
    reveal(job_commanded);
    lemma_documents();
    lemma_order_names();
    let job = rt.state.jobs[i];
    lemma_at(rt.state.jobs, job.id, i);
    let turn = commanded(config, rt, CommandView::Dismiss { job_id: job.id }, time);
    let response = JsonView::object().with("dismissed"@, JsonView::Text(job.id));
    assert(answers(
        config,
        turn.rt,
        time,
        command_step(config, turn.rt, time, turn.stage, CommandEventView::Done),
        response,
    ));
}

/// A job that nobody knows is neither tried again nor looked into nor dismissed.
pub proof fn law_unknown_job(config: Config, rt: RuntimeView, time: u64, job_id: Seq<char>)
    requires
        forall|i: int| 0 <= i < rt.state.jobs.len() ==> (#[trigger] rt.state.jobs[i]).id != job_id,
    ensures
        ({
            let retry = commanded(config, rt, CommandView::Retry { job_id }, time);
            let reconcile = commanded(config, rt, CommandView::Reconcile { job_id }, time);
            let dismiss = commanded(config, rt, CommandView::Dismiss { job_id }, time);
            &&& retry.rt == rt && reconcile.rt == rt && dismiss.rt == rt
            &&& retry.need == CommandNeedView::Respond(
                Err(FailureView::Refused(ErrorView::NoSuchReview)),
            )
            &&& reconcile.need == CommandNeedView::Respond(
                Err(FailureView::Refused(ErrorView::UnknownJob)),
            )
            &&& dismiss.need == CommandNeedView::Respond(
                Err(FailureView::Refused(ErrorView::UnknownJob)),
            )
        }),
{
    reveal(job_commanded);
    lemma_place(rt.state.jobs, job_id);
}

// ---------------------------------------------------------------------------
// Reading again

/// The user can have the whole of what was said last, or of what waits last if nothing was said
/// yet: it is answered, and put in line to be spoken, as far as it can be.
pub proof fn law_read_again(config: Config, rt: RuntimeView, time: u64)
    ensures
        commanded(config, rt, CommandView::ReadLast, time) == commanded(
            config,
            rt,
            CommandView::Why,
            time,
        ),
        ({
            let turn = commanded(config, rt, CommandView::ReadLast, time);
            let list = rt.state.announcements;
            let detail = match rt.state.last_spoken {
                Some(item) => item.detail,
                None => list.last().detail,
            };
            let now = turn.rt.state.announcements;
            if rt.state.last_spoken is None && list.len() == 0 {
                exists|response: JsonView|
                    text_in(response.get("detail"@)) == Some("No recent announcement."@)
                        && #[trigger] answers(config, rt, time, turn, response)
            } else {
                &&& turn.rt == rt.with_state(StateView { announcements: now, ..rt.state })
                &&& now.len() > 0
                &&& now.drop_last() == if list.len() >= 100 {
                    list.drop_first()
                } else {
                    list
                }
                &&& now.last().id == "read:"@ + (match rt.state.last_spoken {
                    Some(item) => item.id,
                    None => list.last().id,
                }) + ":"@ + numeral(time as nat)
                &&& now.last().detail == detail
                &&& !now.last().urgent
                &&& begins(detail, now.last().text)
                &&& size(now.last().text) <= 3900
                &&& size(detail) <= 3900 ==> now.last().text == detail
                &&& exists|response: JsonView|
                    text_in(response.get("detail"@)) == Some(detail) && #[trigger] answers(
                        config,
                        turn.rt,
                        time,
                        turn,
                        response,
                    )
            }
        }),
{
    reveal(tasked);
    lemma_documents();
    let turn = commanded(config, rt, CommandView::ReadLast, time);
    let list = rt.state.announcements;
    if rt.state.last_spoken is None && list.len() == 0 {
        let response = JsonView::object().with(
            "detail"@,
            JsonView::Text("No recent announcement."@),
        );
        assert(answers(config, rt, time, turn, response));
    } else {
        let detail = match rt.state.last_spoken {
            Some(item) => item.detail,
            None => list.last().detail,
        };
        law_clipped(detail, 3900);
        let said = clipped(detail, 3900);
        assert(detail.subrange(0, said.len() as int) =~= said);
        let response = JsonView::object().with("detail"@, JsonView::Text(detail));
        assert(answers(config, turn.rt, time, turn, response));
        let kept = if list.len() >= 100 {
            list.drop_first()
        } else {
            list
        };
        let now = turn.rt.state.announcements;
        assert(now =~= kept.push(now.last()));
        assert(kept.push(now.last()).drop_last() =~= kept);
    }
}

// ---------------------------------------------------------------------------
// Words

/// What the user says is understood by its words: each phrase has its command.
pub proof fn law_words(text: Seq<char>)
    ensures
        understood(text, "pause"@) == CommandView::Pause,
        understood(text, "pause activity"@) == CommandView::Pause,
        understood(text, "resume"@) == CommandView::Resume,
        understood(text, "resume activity"@) == CommandView::Resume,
        understood(text, "i'm away"@) == (CommandView::Away { enabled: true }),
        understood(text, "i am away"@) == (CommandView::Away { enabled: true }),
        understood(text, "away mode on"@) == (CommandView::Away { enabled: true }),
        understood(text, "i'm back"@) == (CommandView::Away { enabled: false }),
        understood(text, "i am back"@) == (CommandView::Away { enabled: false }),
        understood(text, "away mode off"@) == (CommandView::Away { enabled: false }),
        understood(text, "status"@) == CommandView::Status,
        understood(text, "what happened"@) == CommandView::Status,
        understood(text, "run down"@) == CommandView::Rundown,
        understood(text, "rundown"@) == CommandView::Rundown,
        understood(text, "check everything"@) == CommandView::Rundown,
        understood(text, "read it"@) == CommandView::ReadLast,
        understood(text, "read that"@) == CommandView::ReadLast,
        understood(text, "why"@) == CommandView::Why,
        understood(text, "why is it important"@) == CommandView::Why,
        understood(text, "stop"@) == CommandView::Stop,
        understood(text, "shutdown"@) == CommandView::Stop,
        understood(text, "undo that"@) == CommandView::UndoLast,
        understood(text, "listen"@) == CommandView::Listen,
        understood(text, "summarize discord"@) == (CommandView::SummarizeDiscord { channel: None }),
{
    lemma_words(text);
}

proof fn lemma_words(text: Seq<char>)
    ensures
        understood(text, "pause"@) == (CommandView::Pause),
        understood(text, "pause activity"@) == (CommandView::Pause),
        understood(text, "resume"@) == (CommandView::Resume),
        understood(text, "resume activity"@) == (CommandView::Resume),
        understood(text, "i'm away"@) == (CommandView::Away { enabled: true }),
        understood(text, "i am away"@) == (CommandView::Away { enabled: true }),
        understood(text, "away mode on"@) == (CommandView::Away { enabled: true }),
        understood(text, "i'm back"@) == (CommandView::Away { enabled: false }),
        understood(text, "i am back"@) == (CommandView::Away { enabled: false }),
        understood(text, "away mode off"@) == (CommandView::Away { enabled: false }),
        understood(text, "status"@) == (CommandView::Status),
        understood(text, "what happened"@) == (CommandView::Status),
        understood(text, "run down"@) == (CommandView::Rundown),
        understood(text, "rundown"@) == (CommandView::Rundown),
        understood(text, "check everything"@) == (CommandView::Rundown),
        understood(text, "read it"@) == (CommandView::ReadLast),
        understood(text, "read that"@) == (CommandView::ReadLast),
        understood(text, "why"@) == (CommandView::Why),
        understood(text, "why is it important"@) == (CommandView::Why),
        understood(text, "stop"@) == (CommandView::Stop),
        understood(text, "shutdown"@) == (CommandView::Stop),
        understood(text, "undo that"@) == (CommandView::UndoLast),
        understood(text, "listen"@) == (CommandView::Listen),
        understood(text, "summarize discord"@) == (CommandView::SummarizeDiscord { channel: None }),
{
    law_known_phrases(CommandView::Pause, 0);
    assert(phrases(CommandView::Pause)[0] == "pause"@);
    law_known_phrases(CommandView::Pause, 1);
    assert(phrases(CommandView::Pause)[1] == "pause activity"@);
    law_known_phrases(CommandView::Resume, 0);
    assert(phrases(CommandView::Resume)[0] == "resume"@);
    law_known_phrases(CommandView::Resume, 1);
    assert(phrases(CommandView::Resume)[1] == "resume activity"@);
    law_known_phrases(CommandView::Away { enabled: true }, 0);
    assert(phrases(CommandView::Away { enabled: true })[0] == "i'm away"@);
    law_known_phrases(CommandView::Away { enabled: true }, 1);
    assert(phrases(CommandView::Away { enabled: true })[1] == "i am away"@);
    law_known_phrases(CommandView::Away { enabled: true }, 2);
    assert(phrases(CommandView::Away { enabled: true })[2] == "away mode on"@);
    law_known_phrases(CommandView::Away { enabled: false }, 0);
    assert(phrases(CommandView::Away { enabled: false })[0] == "i'm back"@);
    law_known_phrases(CommandView::Away { enabled: false }, 1);
    assert(phrases(CommandView::Away { enabled: false })[1] == "i am back"@);
    law_known_phrases(CommandView::Away { enabled: false }, 2);
    assert(phrases(CommandView::Away { enabled: false })[2] == "away mode off"@);
    law_known_phrases(CommandView::Status, 0);
    assert(phrases(CommandView::Status)[0] == "status"@);
    law_known_phrases(CommandView::Status, 1);
    assert(phrases(CommandView::Status)[1] == "what happened"@);
    law_known_phrases(CommandView::Rundown, 0);
    assert(phrases(CommandView::Rundown)[0] == "run down"@);
    law_known_phrases(CommandView::Rundown, 1);
    assert(phrases(CommandView::Rundown)[1] == "rundown"@);
    law_known_phrases(CommandView::Rundown, 2);
    assert(phrases(CommandView::Rundown)[2] == "check everything"@);
    law_known_phrases(CommandView::ReadLast, 0);
    assert(phrases(CommandView::ReadLast)[0] == "read it"@);
    law_known_phrases(CommandView::ReadLast, 1);
    assert(phrases(CommandView::ReadLast)[1] == "read that"@);
    law_known_phrases(CommandView::Why, 0);
    assert(phrases(CommandView::Why)[0] == "why"@);
    law_known_phrases(CommandView::Why, 1);
    assert(phrases(CommandView::Why)[1] == "why is it important"@);
    law_known_phrases(CommandView::Stop, 0);
    assert(phrases(CommandView::Stop)[0] == "stop"@);
    law_known_phrases(CommandView::Stop, 1);
    assert(phrases(CommandView::Stop)[1] == "shutdown"@);
    law_known_phrases(CommandView::UndoLast, 0);
    assert(phrases(CommandView::UndoLast)[0] == "undo that"@);
    law_known_phrases(CommandView::Listen, 0);
    assert(phrases(CommandView::Listen)[0] == "listen"@);
    law_known_phrases(CommandView::SummarizeDiscord { channel: None }, 0);
    assert(phrases(CommandView::SummarizeDiscord { channel: None })[0] == "summarize discord"@);
}

proof fn lemma_status_names()
    ensures
        "announcements"@ != "away"@,
        "announcements"@ != "connector_errors"@,
        "announcements"@ != "jobs"@,
        "announcements"@ != "model_calls_today"@,
        "announcements"@ != "next_rundown"@,
        "announcements"@ != "paused"@,
        "announcements"@ != "recent"@,
        "announcements"@ != "reserved_tokens_today"@,
        "away"@ != "connector_errors"@,
        "away"@ != "jobs"@,
        "away"@ != "model_calls_today"@,
        "away"@ != "next_rundown"@,
        "away"@ != "paused"@,
        "away"@ != "recent"@,
        "away"@ != "reserved_tokens_today"@,
        "connector_errors"@ != "jobs"@,
        "connector_errors"@ != "model_calls_today"@,
        "connector_errors"@ != "next_rundown"@,
        "connector_errors"@ != "paused"@,
        "connector_errors"@ != "recent"@,
        "connector_errors"@ != "reserved_tokens_today"@,
        "jobs"@ != "model_calls_today"@,
        "jobs"@ != "next_rundown"@,
        "jobs"@ != "paused"@,
        "jobs"@ != "recent"@,
        "jobs"@ != "reserved_tokens_today"@,
        "model_calls_today"@ != "next_rundown"@,
        "model_calls_today"@ != "paused"@,
        "model_calls_today"@ != "recent"@,
        "model_calls_today"@ != "reserved_tokens_today"@,
        "next_rundown"@ != "paused"@,
        "next_rundown"@ != "recent"@,
        "next_rundown"@ != "reserved_tokens_today"@,
        "paused"@ != "recent"@,
        "paused"@ != "reserved_tokens_today"@,
        "recent"@ != "reserved_tokens_today"@,
{
    reveal_strlit("announcements");
    reveal_strlit("away");
    reveal_strlit("connector_errors");
    reveal_strlit("jobs");
    reveal_strlit("model_calls_today");
    reveal_strlit("next_rundown");
    reveal_strlit("paused");
    reveal_strlit("recent");
    reveal_strlit("reserved_tokens_today");
    assert("announcements"@.len() == 13);
    assert("away"@.len() == 4);
    assert("connector_errors"@.len() == 16);
    assert("jobs"@.len() == 4);
    assert("model_calls_today"@.len() == 17);
    assert("next_rundown"@.len() == 12);
    assert("paused"@.len() == 6);
    assert("recent"@.len() == 6);
    assert("reserved_tokens_today"@.len() == 21);
    assert("away"@[0] != "jobs"@[0]);
    assert("paused"@[0] != "recent"@[0]);
}

proof fn lemma_job_names()
    ensures
        "action"@ != "attempts"@,
        "action"@ != "calls"@,
        "action"@ != "created"@,
        "action"@ != "error"@,
        "action"@ != "id"@,
        "action"@ != "next_attempt"@,
        "action"@ != "policy"@,
        "action"@ != "proposal"@,
        "action"@ != "result"@,
        "action"@ != "status"@,
        "action"@ != "updated"@,
        "action"@ != "work"@,
        "attempts"@ != "calls"@,
        "attempts"@ != "created"@,
        "attempts"@ != "error"@,
        "attempts"@ != "id"@,
        "attempts"@ != "next_attempt"@,
        "attempts"@ != "policy"@,
        "attempts"@ != "proposal"@,
        "attempts"@ != "result"@,
        "attempts"@ != "status"@,
        "attempts"@ != "updated"@,
        "attempts"@ != "work"@,
        "calls"@ != "created"@,
        "calls"@ != "error"@,
        "calls"@ != "id"@,
        "calls"@ != "next_attempt"@,
        "calls"@ != "policy"@,
        "calls"@ != "proposal"@,
        "calls"@ != "result"@,
        "calls"@ != "status"@,
        "calls"@ != "updated"@,
        "calls"@ != "work"@,
        "created"@ != "error"@,
        "created"@ != "id"@,
        "created"@ != "next_attempt"@,
        "created"@ != "policy"@,
        "created"@ != "proposal"@,
        "created"@ != "result"@,
        "created"@ != "status"@,
        "created"@ != "updated"@,
        "created"@ != "work"@,
        "error"@ != "id"@,
        "error"@ != "next_attempt"@,
        "error"@ != "policy"@,
        "error"@ != "proposal"@,
        "error"@ != "result"@,
        "error"@ != "status"@,
        "error"@ != "updated"@,
        "error"@ != "work"@,
        "id"@ != "next_attempt"@,
        "id"@ != "policy"@,
        "id"@ != "proposal"@,
        "id"@ != "result"@,
        "id"@ != "status"@,
        "id"@ != "updated"@,
        "id"@ != "work"@,
        "next_attempt"@ != "policy"@,
        "next_attempt"@ != "proposal"@,
        "next_attempt"@ != "result"@,
        "next_attempt"@ != "status"@,
        "next_attempt"@ != "updated"@,
        "next_attempt"@ != "work"@,
        "policy"@ != "proposal"@,
        "policy"@ != "result"@,
        "policy"@ != "status"@,
        "policy"@ != "updated"@,
        "policy"@ != "work"@,
        "proposal"@ != "result"@,
        "proposal"@ != "status"@,
        "proposal"@ != "updated"@,
        "proposal"@ != "work"@,
        "result"@ != "status"@,
        "result"@ != "updated"@,
        "result"@ != "work"@,
        "status"@ != "updated"@,
        "status"@ != "work"@,
        "updated"@ != "work"@,
{
    reveal_strlit("action");
    reveal_strlit("attempts");
    reveal_strlit("calls");
    reveal_strlit("created");
    reveal_strlit("error");
    reveal_strlit("id");
    reveal_strlit("next_attempt");
    reveal_strlit("policy");
    reveal_strlit("proposal");
    reveal_strlit("result");
    reveal_strlit("status");
    reveal_strlit("updated");
    reveal_strlit("work");
    assert("action"@.len() == 6);
    assert("attempts"@.len() == 8);
    assert("calls"@.len() == 5);
    assert("created"@.len() == 7);
    assert("error"@.len() == 5);
    assert("id"@.len() == 2);
    assert("next_attempt"@.len() == 12);
    assert("policy"@.len() == 6);
    assert("proposal"@.len() == 8);
    assert("result"@.len() == 6);
    assert("status"@.len() == 6);
    assert("updated"@.len() == 7);
    assert("work"@.len() == 4);
    assert("action"@[0] != "policy"@[0]);
    assert("action"@[0] != "result"@[0]);
    assert("action"@[0] != "status"@[0]);
    assert("attempts"@[0] != "proposal"@[0]);
    assert("calls"@[0] != "error"@[0]);
    assert("created"@[0] != "updated"@[0]);
    assert("policy"@[0] != "result"@[0]);
    assert("policy"@[0] != "status"@[0]);
    assert("result"@[0] != "status"@[0]);
}

proof fn lemma_order_names()
    ensures
        "dismissed"@ != "previous_error"@,
        "job_id"@ != "reprocessing"@,
{
    reveal_strlit("dismissed");
    reveal_strlit("previous_error");
    reveal_strlit("job_id");
    reveal_strlit("reprocessing");
    assert("dismissed"@.len() == 9);
    assert("previous_error"@.len() == 14);
    assert("job_id"@.len() == 6);
    assert("reprocessing"@.len() == 12);
}

/// What fails while a command is carried out is what the command is answered with, and nothing is
/// changed by it.
pub proof fn law_failed_command(
    config: Config,
    rt: RuntimeView,
    time: u64,
    stage: CommandStageView,
    failure: FailureView,
)
    ensures
        ({
            let turn = command_step(config, rt, time, stage, CommandEventView::Failed(failure));
            turn.rt == rt && turn.need == CommandNeedView::Respond(Err(failure))
        }),
{
}

} // verus!
