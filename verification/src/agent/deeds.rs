//! What the agent does outside, and what it records first.
use crate::agent::commands::job_commanded;
use crate::agent::config::CommandView;
use crate::agent::discord::{asks as asks_bot, body, disclosed, DraftView};
use crate::agent::email::{moved, quoted, stands, DecisionView, EvidenceView, MoveView};
use crate::agent::errands::{
    escalates, execution, feed_saves, mail_decided, mail_finished, mail_first, mail_judged,
    mail_moving, mail_progress, mail_read, mail_rooted, other_progress, paper_first, paper_kept,
    paper_progress, paper_selected, progress, reply_answered, reply_begins, reply_context,
    reply_drafted, reply_first, reply_progress, reply_reconciled, reply_rejected, reply_sent,
    undo_begins, undo_decoded, undo_loaded, undone, ErrandStageView, NeedView, ReplyView, Turn,
};
use crate::agent::runtime::RuntimeView;
use crate::agent::state::{known, lemma_place, place, replaced, JobView};
use crate::base::config::Config;
use vstd::prelude::*;

verus! {

// ---------------------------------------------------------------------------
// Replies on Discord

/// Before a reply is sent, none is recorded.
pub open spec fn unsent(stage: ErrandStageView, job: JobView) -> bool {
    match stage {
        ErrandStageView::ReplyStored
        | ErrandStageView::ReplyContext
        | ErrandStageView::ReplyFirst { .. }
        | ErrandStageView::ReplySecond
        | ErrandStageView::ReplyDrafted { .. } => job.action is None,
        _ => true,
    }
}

/// A reply goes out only where it may: it is recorded with the job and was not before, sending is
/// allowed, the user is away and nothing was paused or stopped, and its text says first whose
/// assistant is speaking.
pub open spec fn sends_rightly(config: Config, rt: RuntimeView, job: JobView, turn: Turn) -> bool {
    match turn.need {
        NeedView::Send { channel, body: sent } => {
            &&& job.action is None
            &&& turn.job.action == Some(sent)
            &&& turn.rt.state.jobs == replaced(rt.state.jobs, turn.job)
            &&& config.agent.discord.allow_send
            &&& rt.controls.away
            &&& !rt.controls.paused
            &&& !rt.controls.stop
            &&& job.work is Discord
            &&& exists|draft: DraftView|
                {
                    &&& draft.should_reply
                    &&& !draft.needs_review
                    &&& draft.fault() is None
                    &&& sent == #[trigger] body(
                        job.work->Discord_message.id,
                        disclosed(config.agent.discord.owner_name@, draft.answer),
                    )
                    &&& disclosed(config.agent.discord.owner_name@, draft.answer).len() <= 2000
                }
        },
        _ => true,
    }
}

proof fn lemma_answered_rightly(config: Config, rt: RuntimeView, job: JobView, draft: DraftView)
    requires
        job.action is None,
    ensures
        sends_rightly(config, rt, job, reply_answered(config, rt, job, draft)),
        unsent(
            reply_answered(config, rt, job, draft).stage,
            reply_answered(config, rt, job, draft).job,
        ),
{
    reveal(reply_answered);
    let turn = reply_answered(config, rt, job, draft);
    if turn.need is Send {
        let trigger = job.work->Discord_message.id;
        let text = disclosed(config.agent.discord.owner_name@, draft.answer);
        assert(turn.need->Send_body == body(trigger, text));
    }
}

#[verifier::rlimit(40)]
proof fn lemma_reply_rightly(
    config: Config,
    rt: RuntimeView,
    job: JobView,
    time: u64,
    stage: ErrandStageView,
    reply: ReplyView,
)
    requires
        unsent(stage, job),
    ensures
        sends_rightly(config, rt, job, reply_progress(config, rt, job, time, stage, reply)),
        unsent(
            reply_progress(config, rt, job, time, stage, reply).stage,
            reply_progress(config, rt, job, time, stage, reply).job,
        ),
{
    reveal(reply_progress);
    match (stage, reply) {
        (ErrandStageView::ReplyStored, ReplyView::Draft(parsed)) => {
            if parsed is Ok {
                lemma_answered_rightly(config, rt, job, parsed->Ok_0);
            }
        },
        (ErrandStageView::ReplyDrafted { draft }, ReplyView::Done) => {
            lemma_answered_rightly(config, rt, job, draft);
        },
        (ErrandStageView::ReplyReconciling, _) => {
            reveal(reply_reconciled);
        },
        (ErrandStageView::ReplyContext, _) => {
            reveal(reply_context);
        },
        (ErrandStageView::ReplyFirst { .. }, _) => {
            reveal(reply_first);
            reveal(reply_drafted);
        },
        (ErrandStageView::ReplySecond, _) => {
            reveal(reply_drafted);
        },
        (ErrandStageView::ReplySending { .. }, _) => {
            reveal(reply_sent);
            reveal(reply_rejected);
        },
        _ => {},
    }
}

#[verifier::rlimit(40)]
proof fn lemma_mail_never_sends(
    config: Config,
    rt: RuntimeView,
    job: JobView,
    time: u64,
    stage: ErrandStageView,
    reply: ReplyView,
)
    ensures
        mail_progress(config, rt, job, time, stage, reply).need !is Send,
        mail_progress(config, rt, job, time, stage, reply).stage.field() is Mail
            || mail_progress(config, rt, job, time, stage, reply).stage.field() is Other,
{
    reveal(mail_progress);
    match (stage, reply) {
        (ErrandStageView::MailRooting, _) => {
            reveal(mail_rooted);
        },
        (ErrandStageView::MailReading, _) => {
            reveal(mail_read);
        },
        (ErrandStageView::MailFirst { .. }, _) => {
            reveal(mail_first);
            reveal(mail_judged);
        },
        (ErrandStageView::MailSecond { .. }, _) => {
            reveal(mail_judged);
        },
        (ErrandStageView::MailPlanning { .. }, _) | (ErrandStageView::MailDecoding { .. }, _) => {
            reveal(mail_moving);
        },
        (ErrandStageView::MailApplying { .. }, _) => {
            reveal(mail_finished);
        },
        _ => {
            reveal(mail_decided);
            reveal(mail_finished);
        },
    }
}

/// No reply is sent twice, or where it may not be: at every step of every job a reply goes out
/// only if none was recorded with the job before, and then it is recorded first.
#[verifier::rlimit(40)]
pub proof fn law_sends_rightly(
    config: Config,
    rt: RuntimeView,
    job: JobView,
    time: u64,
    stage: ErrandStageView,
    reply: ReplyView,
)
    requires
        unsent(stage, job),
    ensures
        sends_rightly(config, rt, job, progress(config, rt, job, time, stage, reply)),
        unsent(
            progress(config, rt, job, time, stage, reply).stage,
            progress(config, rt, job, time, stage, reply).job,
        ),
        execution(config, rt, job, time).need !is Send,
        unsent(execution(config, rt, job, time).stage, execution(config, rt, job, time).job),
{
    lemma_reply_rightly(config, rt, job, time, stage, reply);
    lemma_mail_never_sends(config, rt, job, time, stage, reply);
    assert(other_progress(config, rt, job, time, stage, reply).need !is Send
        && other_progress(config, rt, job, time, stage, reply).stage.field() is Other) by {
        reveal(other_progress);
        reveal(undo_loaded);
        reveal(undo_decoded);
        reveal(undone);
    }
    assert({
        let turn = paper_progress(config, rt, job, time, stage, reply);
        turn.need !is Send && (turn.stage.field() is Paper || turn.stage.field() is Other)
    }) by {
        reveal(paper_progress);
        reveal(paper_first);
        reveal(paper_selected);
        reveal(paper_kept);
        reveal(feed_saves);
    }
    reveal(reply_begins);
    reveal(undo_begins);
}

/// A reply that was recorded is only looked for: the job of an interrupted send asks for the
/// messages after the question, and ends with the reply that it finds or with a person.
pub proof fn law_interrupted_send(config: Config, rt: RuntimeView, job: JobView, time: u64)
    requires
        job.work is Discord,
        job.action is Some,
        job.result is None,
    ensures
        execution(config, rt, job, time).stage is ReplyReconciling,
        execution(config, rt, job, time).need is Delivered,
        execution(config, rt, job, time).job.action == job.action,
        forall|reply: ReplyView|
            #![trigger progress(config, rt, job, time, ErrandStageView::ReplyReconciling, reply)]
            progress(config, rt, job, time, ErrandStageView::ReplyReconciling, reply).need is Finish
                && progress(
                config,
                rt,
                job,
                time,
                ErrandStageView::ReplyReconciling,
                reply,
            ).job.action == job.action,
{
    reveal(reply_begins);
    reveal(reply_progress);
    reveal(reply_reconciled);
}

/// The record of a reply is taken back only when the service turned the reply away.
pub proof fn law_record_is_kept(
    config: Config,
    rt: RuntimeView,
    job: JobView,
    time: u64,
    stage: ErrandStageView,
    reply: ReplyView,
)
    requires
        job.action is Some,
        progress(config, rt, job, time, stage, reply).job.action is None,
    ensures
        stage is ReplySending,
        reply is Failed,
        reply->Failed_0 is Later,
{
    if !(stage is ReplySending && reply is Failed && reply->Failed_0 is Later) {
        lemma_action_kept(config, rt, job, time, stage, reply);
    }
}

#[verifier::rlimit(40)]
proof fn lemma_action_kept(
    config: Config,
    rt: RuntimeView,
    job: JobView,
    time: u64,
    stage: ErrandStageView,
    reply: ReplyView,
)
    requires
        job.action is Some,
        !(stage is ReplySending && reply is Failed && reply->Failed_0 is Later),
    ensures
        progress(config, rt, job, time, stage, reply).job.action is Some,
{
    assert(mail_progress(config, rt, job, time, stage, reply).job.action is Some) by {
        reveal(mail_progress);
        match (stage, reply) {
            (ErrandStageView::MailRooting, _) => {
                reveal(mail_rooted);
            },
            (ErrandStageView::MailReading, _) => {
                reveal(mail_read);
            },
            (ErrandStageView::MailFirst { .. }, _) => {
                reveal(mail_first);
                reveal(mail_judged);
            },
            (ErrandStageView::MailSecond { .. }, _) => {
                reveal(mail_judged);
            },
            (ErrandStageView::MailPlanning { .. }, _) | (
                ErrandStageView::MailDecoding { .. },
                _,
            ) => {
                reveal(mail_moving);
            },
            (ErrandStageView::MailApplying { .. }, _) => {
                reveal(mail_finished);
            },
            _ => {
                reveal(mail_decided);
                reveal(mail_finished);
            },
        }
    }
    assert(reply_progress(config, rt, job, time, stage, reply).job.action is Some) by {
        reveal(reply_progress);
        match (stage, reply) {
            (ErrandStageView::ReplyReconciling, _) => {
                reveal(reply_reconciled);
            },
            (ErrandStageView::ReplyContext, _) => {
                reveal(reply_context);
            },
            (ErrandStageView::ReplyFirst { .. }, _) => {
                reveal(reply_first);
                reveal(reply_drafted);
            },
            (ErrandStageView::ReplySecond, _) => {
                reveal(reply_drafted);
            },
            (ErrandStageView::ReplySending { .. }, _) => {
                reveal(reply_sent);
            },
            _ => {
                reveal(reply_answered);
            },
        }
    }
    assert(other_progress(config, rt, job, time, stage, reply).job.action is Some) by {
        reveal(other_progress);
        reveal(undo_loaded);
        reveal(undo_decoded);
        reveal(undone);
    }
    assert(paper_progress(config, rt, job, time, stage, reply).job.action is Some) by {
        reveal(paper_progress);
        reveal(paper_first);
        reveal(paper_selected);
        reveal(paper_kept);
        reveal(feed_saves);
    }
}

/// A question is answered only while the user is away, and only if a person asked the bot.
pub proof fn law_answers_while_away(config: Config, rt: RuntimeView, job: JobView, time: u64)
    requires
        job.work is Discord,
        job.action is None,
        job.result is None,
        execution(config, rt, job, time).need !is Finish,
    ensures
        rt.state.away,
        asks_bot(job.work->Discord_message, config.agent.discord.bot_id@),
{
    reveal(reply_begins);
}

/// An uncertain reply is not sent again on the user's word: such a job cannot be retried, only
/// looked into, and that keeps the record.
pub proof fn law_no_retry_of_uncertain(
    rt: RuntimeView,
    job_id: Seq<char>,
    time: u64,
)
    requires
        known(rt.state.jobs, job_id),
        rt.state.jobs[place(rt.state.jobs, job_id) as int].work is Discord,
        rt.state.jobs[place(rt.state.jobs, job_id) as int].action is Some,
    ensures
        job_commanded(rt, CommandView::Retry { job_id }, time).rt == rt,
        job_commanded(rt, CommandView::Retry { job_id }, time).need is Respond,
        job_commanded(rt, CommandView::Retry { job_id }, time).need->Respond_0 is Err,
        job_commanded(
            rt,
            CommandView::Reconcile { job_id },
            time,
        ).rt.state.jobs[place(rt.state.jobs, job_id) as int].action
            == rt.state.jobs[place(rt.state.jobs, job_id) as int].action,
{
    reveal(job_commanded);
    lemma_place(rt.state.jobs, job_id);
}

// ---------------------------------------------------------------------------
// Email

/// A move that is to be kept first is recorded with the job.
pub open spec fn records_move(rt: RuntimeView, turn: Turn) -> bool {
    turn.need is Apply && turn.need->keep ==> {
        &&& turn.job.action == Some(turn.need->movement.json())
        &&& turn.rt.state.jobs == replaced(rt.state.jobs, turn.job)
    }
}

#[verifier::rlimit(40)]
proof fn lemma_mail_records(
    config: Config,
    rt: RuntimeView,
    job: JobView,
    time: u64,
    stage: ErrandStageView,
    reply: ReplyView,
)
    ensures
        records_move(rt, mail_progress(config, rt, job, time, stage, reply)),
{
    reveal(mail_progress);
    match (stage, reply) {
        (ErrandStageView::MailRooting, _) => {
            reveal(mail_rooted);
        },
        (ErrandStageView::MailReading, _) => {
            reveal(mail_read);
        },
        (ErrandStageView::MailFirst { .. }, _) => {
            reveal(mail_first);
            reveal(mail_judged);
        },
        (ErrandStageView::MailSecond { .. }, _) => {
            reveal(mail_judged);
        },
        (ErrandStageView::MailPlanning { .. }, _) | (ErrandStageView::MailDecoding { .. }, _) => {
            reveal(mail_moving);
        },
        (ErrandStageView::MailApplying { .. }, _) => {
            reveal(mail_finished);
        },
        _ => {
            reveal(mail_decided);
            reveal(mail_finished);
        },
    }
}

#[verifier::rlimit(40)]
proof fn lemma_reply_records(
    config: Config,
    rt: RuntimeView,
    job: JobView,
    time: u64,
    stage: ErrandStageView,
    reply: ReplyView,
)
    ensures
        reply_progress(config, rt, job, time, stage, reply).need !is Apply,
{
    reveal(reply_progress);
    match (stage, reply) {
        (ErrandStageView::ReplyReconciling, _) => {
            reveal(reply_reconciled);
        },
        (ErrandStageView::ReplyContext, _) => {
            reveal(reply_context);
        },
        (ErrandStageView::ReplyFirst { .. }, _) => {
            reveal(reply_first);
            reveal(reply_drafted);
        },
        (ErrandStageView::ReplySecond, _) => {
            reveal(reply_drafted);
        },
        (ErrandStageView::ReplySending { .. }, _) => {
            reveal(reply_sent);
            reveal(reply_rejected);
        },
        _ => {
            reveal(reply_answered);
        },
    }
}

#[verifier::rlimit(40)]
proof fn lemma_other_records(
    config: Config,
    rt: RuntimeView,
    job: JobView,
    time: u64,
    stage: ErrandStageView,
    reply: ReplyView,
)
    ensures
        paper_progress(config, rt, job, time, stage, reply).need !is Apply,
        records_move(rt, other_progress(config, rt, job, time, stage, reply)),
        execution(config, rt, job, time).need !is Apply,
{
    assert(paper_progress(config, rt, job, time, stage, reply).need !is Apply) by {
        reveal(paper_progress);
        reveal(paper_first);
        reveal(paper_selected);
        reveal(paper_kept);
        reveal(feed_saves);
    }
    assert(records_move(rt, other_progress(config, rt, job, time, stage, reply))) by {
        reveal(other_progress);
        reveal(undo_loaded);
        reveal(undo_decoded);
        reveal(undone);
    }
    reveal(reply_begins);
    reveal(undo_begins);
}

/// A move is recorded with its job before it is applied for the first time, there and back.
pub proof fn law_moves_are_recorded(
    config: Config,
    rt: RuntimeView,
    job: JobView,
    time: u64,
    stage: ErrandStageView,
    reply: ReplyView,
)
    ensures
        records_move(rt, progress(config, rt, job, time, stage, reply)),
        execution(config, rt, job, time).need !is Apply,
{
    lemma_mail_records(config, rt, job, time, stage, reply);
    lemma_reply_records(config, rt, job, time, stage, reply);
    lemma_other_records(config, rt, job, time, stage, reply);
}

/// A decision stands only if it is in bounds, every quote stands in the message, and the model
/// left nothing to a person; whatever the model's confidence.
pub proof fn law_decisions_quote(
    config: Config,
    rt: RuntimeView,
    job: JobView,
    evidence: EvidenceView,
    parsed: Result<DecisionView, Seq<char>>,
)
    ensures
        mail_judged(config, rt, job, evidence, parsed).need is Save ==> {
            &&& parsed is Ok
            &&& parsed->Ok_0.fault() is None
            &&& quoted(parsed->Ok_0.evidence, evidence.source())
            &&& !parsed->Ok_0.needs_review
        },
{
    reveal(mail_judged);
}

/// A decision of the cheap model alone never stands where every decision is to be reviewed, where
/// it or the rules find the message important or critical, or where the model is in doubt: the
/// stronger model is asked, or nothing is decided.
pub proof fn law_strong_review(
    config: Config,
    rt: RuntimeView,
    job: JobView,
    time: u64,
    evidence: EvidenceView,
    text: Seq<char>,
    parsed: Result<DecisionView, Seq<char>>,
)
    requires
        escalates(config.agent.email.review_all, evidence, parsed),
    ensures
        ({
            let turn = mail_first(config, rt, job, time, evidence, text, parsed);
            ||| turn.need is Finish && turn.need->Finish_0 is Err
            ||| turn.need is Model && turn.need->complexity == crate::base::models::Complexity::Complex
        }),
{
    reveal(mail_first);
}

/// Undoing a move restores the mailbox: when a move of a message to a free place and then the way
/// back have both succeeded, every file is where it was and as it was.
pub proof fn law_undo_restores(
    first: Map<Seq<char>, Seq<u8>>,
    between: Map<Seq<char>, Seq<u8>>,
    last: Map<Seq<char>, Seq<u8>>,
    movement: MoveView,
)
    requires
        movement.source != movement.destination,
        stands(first, movement.source, movement.hash),
        !first.dom().contains(movement.destination),
        moved(between, first, movement),
        moved(last, between, movement.reverse()),
    ensures
        last == first,
{
    let back = movement.reverse();
    let full = choose|full: Map<Seq<char>, Seq<u8>>| #[trigger]
        crate::agent::email::arrived(full, first, movement) && between == full.remove(
            movement.source,
        ) && (full.dom().contains(movement.source) ==> stands(
            full,
            movement.source,
            movement.hash,
        ));
    let again = choose|again: Map<Seq<char>, Seq<u8>>| #[trigger]
        crate::agent::email::arrived(again, between, back) && last == again.remove(back.source) && (
        again.dom().contains(back.source) ==> stands(again, back.source, back.hash));
    assert(full == crate::agent::email::linked(first, movement));
    assert(!between.dom().contains(movement.source));
    assert(again == crate::agent::email::linked(between, back));
    assert(last =~= first);
}

/// Only a finished job that moved a message can be undone, and what is applied is the way back of
/// the move that it recorded.
pub proof fn law_undo_goes_back(
    config: Config,
    rt: RuntimeView,
    job: JobView,
    original: JobView,
    movement: MoveView,
)
    ensures
        undo_loaded(rt, job, original).need is Movement ==> original.work is Email
            && crate::agent::errands::has_moved(original.result) && original.action == Some(
            undo_loaded(rt, job, original).need->Movement_0,
        ),
        undo_decoded(config, rt, job, movement).need is Apply ==> undo_decoded(
            config,
            rt,
            job,
            movement,
        ).need->movement == movement.reverse(),
{
    reveal(undo_loaded);
    reveal(undo_decoded);
}

/// A job that has its result does nothing more: it is not done again after an interruption.
pub proof fn law_result_is_final(config: Config, rt: RuntimeView, job: JobView, time: u64)
    requires
        job.result is Some,
    ensures
        execution(config, rt, job, time) == (Turn {
            rt,
            job,
            stage: ErrandStageView::Finished,
            need: NeedView::Finish(Ok(job.result->0)),
        }),
{
}

} // verus!
