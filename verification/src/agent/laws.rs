//! What holds of the agent as a whole.
use crate::agent::commands::{
    command_step, commanded, job_commanded, switched, tasked, CommandEventView, CommandStageView,
};
use crate::agent::config::CommandView;
use crate::agent::daemon::{resident_round, resident_step, ResidentEventView, ResidentStageView};
use crate::agent::discord::MessageView;
use crate::agent::email::{DecisionView, EvidenceView, MoveView};
use crate::agent::errands::{
    asks, current, errand_step, execution, feed_saves, gated, kept_first, mail_decided,
    mail_finished, mail_first, mail_judged, mail_moving, mail_progress, mail_read, mail_rooted,
    other_progress, paper_first, paper_kept, paper_progress, paper_selected, progress,
    reply_answered, reply_begins, reply_context, reply_drafted, reply_first, reply_progress,
    reply_reconciled, reply_rejected, reply_sent, undo_begins, undo_decoded, undo_loaded, undone,
    ErrandStageView, NeedView, ReplyView, Turn,
};
use crate::agent::intake::{
    chat_begins, chat_seek, chat_started, chat_walk, due_on, due_progress, mail_begins,
    mail_identity, mail_looked, mail_seek, paper_seek, papers_begin, scheduling, searches,
    seek_step, sources, SeekEventView, SeekStageView,
};
use crate::agent::runtime::{
    admitted, announcing, archived_in, ceiling, checkpointed, enqueued, filing_step, next_spoken,
    quiet, spoken, RuntimeView,
};
use crate::agent::state::{
    all_resumed, announces, known, lemma_place, loaded, others, replaced, AnnouncementView, JobView,
    StateView, Status, WorkView,
};
use crate::agent::ticking::{
    attempted, backoff, due, law_picked, picked, poll_step, settled, tick_begins, tick_step,
    PollStage, TickEventView, TickNeedView, TickStageView,
};
use crate::base::config::Config;
use crate::error::ErrorView;
use crate::failure::FailureView;
use crate::json::JsonView;
use vstd::prelude::*;

verus! {

// ---------------------------------------------------------------------------
// An orderly state

/// No two jobs have the same identity.
pub open spec fn distinct(jobs: Seq<JobView>) -> bool {
    forall|i: int, j: int| 0 <= i < j < jobs.len() ==> jobs[i].id != jobs[j].id
}

/// The state is within all its bounds: every job is queued once and the queue is not overfull, a
/// hundred announcements and thirty finished jobs are kept at most, and the day's model calls and
/// tokens are within the day's budget.
pub open spec fn orderly(config: Config, state: StateView) -> bool {
    &&& distinct(state.jobs)
    &&& state.jobs.len() <= config.agent.max_jobs
    &&& state.announcements.len() <= 100
    &&& state.recent.len() <= 30
    &&& state.model_calls <= config.agent.daily_model_calls
    &&& state.token_reservations <= config.agent.daily_token_budget
}

/// The channels of Discord are where they were.
pub open spec fn same_places(before: StateView, after: StateView) -> bool {
    &&& after.discord_cursors == before.discord_cursors
    &&& after.discord_backfill == before.discord_backfill
}

/// Putting a job in the place of its earlier self changes neither the number of jobs nor their
/// identities.
pub proof fn lemma_replaced(jobs: Seq<JobView>, job: JobView)
    ensures
        replaced(jobs, job).len() == jobs.len(),
        forall|i: int| 0 <= i < jobs.len() ==> (#[trigger] replaced(jobs, job)[i]).id == jobs[i].id,
        distinct(jobs) ==> distinct(replaced(jobs, job)),
{
    lemma_place(jobs, job.id);
    let now = replaced(jobs, job);
    assert forall|i: int| 0 <= i < jobs.len() implies (#[trigger] now[i]).id == jobs[i].id by {}
    if distinct(jobs) {
        assert forall|i: int, j: int| 0 <= i < j < now.len() implies now[i].id != now[j].id by {
            assert(now[i].id == jobs[i].id && now[j].id == jobs[j].id);
        }
    }
}

/// Taking jobs out leaves the others as they are.
pub proof fn lemma_others(jobs: Seq<JobView>, id: Seq<char>)
    ensures
        others(jobs, id).len() <= jobs.len(),
        forall|i: int|
            0 <= i < others(jobs, id).len() ==> jobs.contains(#[trigger] others(jobs, id)[i])
                && others(jobs, id)[i].id != id,
        distinct(jobs) ==> distinct(others(jobs, id)),
    decreases jobs.len(),
{
    if jobs.len() > 0 {
        let rest = jobs.drop_last();
        let last = jobs.last();
        lemma_others(rest, id);
        let less = others(rest, id);
        let now = others(jobs, id);
        assert forall|i: int| 0 <= i < now.len() implies jobs.contains(#[trigger] now[i])
            && now[i].id != id by {
            if i < less.len() {
                assert(now[i] == less[i]);
                let k = choose|k: int| 0 <= k < rest.len() && rest[k] == less[i];
                assert(jobs[k] == less[i]);
            } else {
                assert(jobs[jobs.len() - 1] == now[i]);
            }
        }
        if distinct(jobs) {
            assert(distinct(rest)) by {
                assert forall|i: int, j: int| 0 <= i < j < rest.len() implies rest[i].id
                    != rest[j].id by {
                    assert(jobs[i].id != jobs[j].id);
                }
            }
            assert forall|i: int, j: int| 0 <= i < j < now.len() implies now[i].id != now[j].id by {
                if j < less.len() {
                    assert(less[i].id != less[j].id);
                } else {
                    assert(now[i] == less[i]);
                    let k = choose|k: int| 0 <= k < rest.len() && rest[k] == less[i];
                    assert(jobs[k].id != jobs[jobs.len() - 1].id);
                }
            }
        }
    }
}

/// Keeping a job as it stands leaves an orderly state orderly.
pub proof fn law_checkpoint_is_orderly(config: Config)
    ensures
        forall|rt: RuntimeView, job: JobView|
            #![trigger checkpointed(rt, job)]
            orderly(config, rt.state) ==> orderly(config, checkpointed(rt, job).state),
{
    assert forall|rt: RuntimeView, job: JobView|
        #![trigger checkpointed(rt, job)]
        orderly(config, rt.state) implies orderly(config, checkpointed(rt, job).state) by {
        lemma_replaced(rt.state.jobs, job);
    }
}

/// Having something to say leaves an orderly state orderly.
pub proof fn law_announcing_is_orderly(config: Config)
    ensures
        forall|rt: RuntimeView, id: Seq<char>, text: Seq<char>, detail: Seq<char>, urgent: bool|
            #![trigger announcing(rt, id, text, detail, urgent)]
            orderly(config, rt.state) ==> orderly(
                config,
                announcing(rt, id, text, detail, urgent).state,
            ),
{
}

/// Offering work leaves an orderly state orderly: nothing is queued twice or beyond the bound.
pub proof fn law_enqueue_is_orderly(
    config: Config,
    rt: RuntimeView,
    id: Seq<char>,
    work: WorkView,
    time: u64,
    archived: bool,
)
    requires
        orderly(config, rt.state),
    ensures
        orderly(
            config,
            enqueued(config.agent.max_jobs as nat, rt, id, work, time, archived).0.state,
        ),
{
    lemma_place(rt.state.jobs, id);
    if !archived && !known(rt.state.jobs, id) && rt.state.jobs.len() < config.agent.max_jobs {
        let jobs = rt.state.jobs;
        let now = jobs.push(JobView::fresh(id, work, time));
        assert forall|i: int, j: int| 0 <= i < j < now.len() implies now[i].id != now[j].id by {
            assert(now[i] == jobs[i]);
        }
    }
}

/// Work that was offered and taken is known: offered again it changes nothing, whatever its time.
pub proof fn law_offered_once(
    max_jobs: nat,
    rt: RuntimeView,
    id: Seq<char>,
    work: WorkView,
    time: u64,
    again: u64,
    archived: bool,
)
    requires
        enqueued(max_jobs, rt, id, work, time, archived).1 is Ok,
    ensures
        ({
            let now = enqueued(max_jobs, rt, id, work, time, archived).0;
            enqueued(max_jobs, now, id, work, again, archived) == (now, Ok::<bool, ErrorView>(false))
        }),
{
    let now = enqueued(max_jobs, rt, id, work, time, archived).0;
    if !archived && !known(rt.state.jobs, id) {
        let jobs = rt.state.jobs;
        let all = now.state.jobs;
        lemma_place(jobs, id);
        lemma_place(all, id);
        if !known(all, id) {
            assert(all[jobs.len() as int].id != id);
        }
    }
}

/// Keeping a finished job leaves an orderly state orderly.
pub proof fn law_archive_is_orderly(config: Config, rt: RuntimeView, job: JobView)
    requires
        orderly(config, rt.state),
    ensures
        orderly(config, archived_in(rt, job).state),
{
    lemma_others(rt.state.jobs, job.id);
    lemma_others(rt.state.recent, job.id);
}

/// Keeping the finished jobs leaves an orderly state orderly, step by step, and a job that could
/// not be kept changes nothing.
pub proof fn law_filing_is_orderly(
    config: Config,
    rt: RuntimeView,
    rest: Seq<JobView>,
    res: Result<(), FailureView>,
)
    requires
        orderly(config, rt.state),
    ensures
        orderly(config, filing_step(rt, rest, res).rt.state),
        res is Err ==> filing_step(rt, rest, res).rt == rt,
{
    if res is Ok && rest.len() > 0 {
        law_archive_is_orderly(config, rt, rest[0]);
    }
}

/// Speaking leaves an orderly state orderly.
pub proof fn law_speaking_is_orderly(config: Config, rt: RuntimeView, time: u64)
    requires
        orderly(config, rt.state),
    ensures
        orderly(config, spoken(config, rt, time).0.state),
{
}

// ---------------------------------------------------------------------------
// Model calls

/// A model call is charged before it is made, to the day and to the job, and never beyond the
/// day's budget of calls and tokens, beyond the calls kept for email, or beyond the job's calls;
/// a call that is refused is not charged.
pub proof fn law_calls_within_budget(
    config: Config,
    rt: RuntimeView,
    job: JobView,
    instruction: Seq<char>,
    data: Seq<char>,
    time: u64,
)
    requires
        orderly(config, rt.state),
    ensures
        ({
            let day = rt.state.on_day(time);
            let admission = admitted(config, rt, job, instruction, data, time);
            &&& orderly(config, admission.rt.state)
            &&& admission.res is Ok ==> {
                &&& admission.rt.state.model_calls == day.model_calls + 1
                &&& admission.rt.state.model_calls <= ceiling(config, job.work)
                &&& admission.rt.state.token_reservations <= config.agent.daily_token_budget
                &&& admission.job.calls == job.calls + 1
                &&& admission.job.calls <= config.agent.max_calls_per_job
                &&& admission.rt.state.budget_day == day.budget_day
            }
            &&& admission.res is Err ==> {
                &&& admission.job == job
                &&& admission.rt.state == rt.state || admission.rt.state == day
            }
        }),
{
    law_checkpoint_is_orderly(config);
}

/// Work other than email leaves the calls that are kept for email.
pub proof fn law_email_reserve(
    config: Config,
    rt: RuntimeView,
    job: JobView,
    instruction: Seq<char>,
    data: Seq<char>,
    time: u64,
)
    requires
        job.work !is Email,
        config.agent.daily_model_calls >= config.agent.reserved_email_calls,
        admitted(config, rt, job, instruction, data, time).res is Ok,
    ensures
        admitted(config, rt, job, instruction, data, time).rt.state.model_calls
            + config.agent.reserved_email_calls <= config.agent.daily_model_calls,
{
}

/// The turn asks a model only after the call was charged.
pub open spec fn charges(rt: RuntimeView, job: JobView, time: u64, turn: Turn) -> bool {
    if turn.need is Model {
        &&& turn.rt.state.model_calls == rt.state.on_day(time).model_calls + 1
        &&& turn.job.calls == job.calls + 1
    } else {
        turn.job.calls == job.calls
    }
}

/// What every step of a job keeps: the state stays orderly and the channels keep their places, the
/// job keeps its identity and its work, and a model is asked only after the call was charged.
pub open spec fn sound(config: Config, rt: RuntimeView, job: JobView, time: u64, turn: Turn) -> bool {
    &&& orderly(config, rt.state) ==> orderly(config, turn.rt.state)
    &&& same_places(rt.state, turn.rt.state)
    &&& turn.job.id == job.id
    &&& turn.job.work == job.work
    &&& charges(rt, job, time, turn)
}

proof fn lemma_asks_sound(config: Config, time: u64)
    ensures
        forall|
            rt: RuntimeView,
            job: JobView,
            tier: crate::base::models::Complexity,
            instruction: Seq<char>,
            data: Seq<char>,
            shape: crate::agent::errands::Shape,
            stage: ErrandStageView,
        |
            #![trigger asks(config, rt, job, time, tier, instruction, data, shape, stage)]
            sound(
                config,
                rt,
                job,
                time,
                asks(config, rt, job, time, tier, instruction, data, shape, stage),
            ),
{
    assert forall|
        rt: RuntimeView,
        job: JobView,
        tier: crate::base::models::Complexity,
        instruction: Seq<char>,
        data: Seq<char>,
        shape: crate::agent::errands::Shape,
        stage: ErrandStageView,
    |
        #![trigger asks(config, rt, job, time, tier, instruction, data, shape, stage)]
        sound(
            config,
            rt,
            job,
            time,
            asks(config, rt, job, time, tier, instruction, data, shape, stage),
        ) by {
        if orderly(config, rt.state) {
            law_calls_within_budget(config, rt, job, instruction, data, time);
        }
    }
}

proof fn lemma_mail_decided_sound(
    config: Config,
    rt: RuntimeView,
    job: JobView,
    time: u64,
    decision: DecisionView,
)
    ensures
        sound(config, rt, job, time, mail_finished(config, rt, job, decision)),
        sound(config, rt, job, time, mail_decided(config, rt, job, decision)),
{
    law_checkpoint_is_orderly(config);
    law_announcing_is_orderly(config);
    assert(sound(config, rt, job, time, mail_finished(config, rt, job, decision))) by {
        reveal(mail_finished);
    }
    reveal(mail_decided);
}

proof fn lemma_mail_judged_sound(
    config: Config,
    rt: RuntimeView,
    job: JobView,
    time: u64,
    evidence: EvidenceView,
    text: Seq<char>,
    parsed: Result<DecisionView, Seq<char>>,
)
    ensures
        sound(config, rt, job, time, mail_judged(config, rt, job, evidence, parsed)),
        sound(config, rt, job, time, mail_first(config, rt, job, time, evidence, text, parsed)),
{
    law_checkpoint_is_orderly(config);
    lemma_asks_sound(config, time);
    assert(sound(config, rt, job, time, mail_judged(config, rt, job, evidence, parsed))) by {
        reveal(mail_judged);
    }
    reveal(mail_first);
}

proof fn lemma_mail_moving_sound(
    config: Config,
    rt: RuntimeView,
    job: JobView,
    time: u64,
    decision: DecisionView,
    movement: MoveView,
    fresh: bool,
)
    ensures
        sound(config, rt, job, time, mail_moving(config, rt, job, decision, movement, fresh)),
{
    law_checkpoint_is_orderly(config);
    reveal(mail_moving);
}

proof fn lemma_mail_read_sound(
    config: Config,
    rt: RuntimeView,
    job: JobView,
    time: u64,
    root: Seq<char>,
    bytes: Seq<u8>,
)
    ensures
        sound(config, rt, job, time, mail_rooted(config, rt, job, root)),
        sound(config, rt, job, time, mail_read(config, rt, job, time, bytes)),
{
    lemma_asks_sound(config, time);
    reveal(mail_rooted);
    reveal(mail_read);
}

#[verifier::rlimit(40)]
proof fn lemma_mail_sound(
    config: Config,
    rt: RuntimeView,
    job: JobView,
    time: u64,
    stage: ErrandStageView,
    reply: ReplyView,
)
    ensures
        sound(config, rt, job, time, mail_progress(config, rt, job, time, stage, reply)),
{
    reveal(mail_progress);
    match (stage, reply) {
        (ErrandStageView::MailRooting, ReplyView::Root(root)) => {
            lemma_mail_read_sound(config, rt, job, time, root, Seq::empty());
        },
        (ErrandStageView::MailReading, ReplyView::Bytes(bytes)) => {
            lemma_mail_read_sound(config, rt, job, time, Seq::empty(), bytes);
        },
        (ErrandStageView::MailStored, ReplyView::Decision { text, parsed }) => {
            if parsed is Ok {
                lemma_mail_decided_sound(config, rt, job, time, parsed->Ok_0);
            }
        },
        (ErrandStageView::MailFirst { evidence }, ReplyView::Decision { text, parsed }) => {
            lemma_mail_judged_sound(config, rt, job, time, evidence, text, parsed);
        },
        (ErrandStageView::MailSecond { evidence }, ReplyView::Decision { text, parsed }) => {
            lemma_mail_judged_sound(config, rt, job, time, evidence, text, parsed);
        },
        (ErrandStageView::MailDecided { decision }, ReplyView::Done) => {
            lemma_mail_decided_sound(config, rt, job, time, decision);
        },
        (ErrandStageView::MailPlanning { decision }, ReplyView::Movement(parsed)) => {
            if parsed is Ok {
                lemma_mail_moving_sound(config, rt, job, time, decision, parsed->Ok_0, true);
            }
        },
        (ErrandStageView::MailDecoding { decision }, ReplyView::Movement(parsed)) => {
            if parsed is Ok {
                lemma_mail_moving_sound(config, rt, job, time, decision, parsed->Ok_0, false);
            }
        },
        (ErrandStageView::MailApplying { decision }, ReplyView::Done) => {
            lemma_mail_decided_sound(config, rt, job, time, decision);
        },
        _ => {},
    }
}

#[verifier::rlimit(40)]
proof fn lemma_reply_sound(
    config: Config,
    rt: RuntimeView,
    job: JobView,
    time: u64,
    stage: ErrandStageView,
    reply: ReplyView,
)
    ensures
        sound(config, rt, job, time, reply_progress(config, rt, job, time, stage, reply)),
{
    law_checkpoint_is_orderly(config);
    law_announcing_is_orderly(config);
    lemma_asks_sound(config, time);
    reveal(reply_progress);
    match (stage, reply) {
        (ErrandStageView::ReplyReconciling, _) => {
            reveal(reply_reconciled);
        },
        (ErrandStageView::ReplyContext, _) => {
            reveal(reply_context);
        },
        (ErrandStageView::ReplyFirst { .. }, _) => {
            reveal(reply_first);
            reveal(reply_drafted);
        },
        (ErrandStageView::ReplySecond, _) => {
            reveal(reply_drafted);
        },
        (ErrandStageView::ReplySending { .. }, _) => {
            reveal(reply_sent);
            reveal(reply_rejected);
        },
        _ => {
            reveal(reply_answered);
        },
    }
}

#[verifier::rlimit(40)]
proof fn lemma_other_sound(
    config: Config,
    rt: RuntimeView,
    job: JobView,
    time: u64,
    stage: ErrandStageView,
    reply: ReplyView,
)
    ensures
        sound(config, rt, job, time, paper_progress(config, rt, job, time, stage, reply)),
        sound(config, rt, job, time, other_progress(config, rt, job, time, stage, reply)),
{
    law_checkpoint_is_orderly(config);
    law_announcing_is_orderly(config);
    lemma_asks_sound(config, time);
    assert(sound(config, rt, job, time, paper_progress(config, rt, job, time, stage, reply))) by {
        reveal(paper_progress);
        reveal(paper_first);
        reveal(paper_selected);
        reveal(paper_kept);
        reveal(feed_saves);
    }
    assert(sound(config, rt, job, time, other_progress(config, rt, job, time, stage, reply))) by {
        reveal(other_progress);
        reveal(undo_loaded);
        reveal(undo_decoded);
        reveal(undone);
    }
}

/// Every step of every job keeps the state orderly, the places of the channels and the job's
/// identity, and asks a model only after the call was charged to the day and to the job.
#[verifier::rlimit(40)]
pub proof fn law_jobs_are_sound(
    config: Config,
    rt: RuntimeView,
    job: JobView,
    time: u64,
    stage: ErrandStageView,
    reply: ReplyView,
)
    ensures
        sound(config, rt, job, time, progress(config, rt, job, time, stage, reply)),
        sound(config, rt, job, time, execution(config, rt, job, time)),
{
    lemma_mail_sound(config, rt, job, time, stage, reply);
    lemma_reply_sound(config, rt, job, time, stage, reply);
    lemma_other_sound(config, rt, job, time, stage, reply);
    lemma_asks_sound(config, time);
    reveal(reply_begins);
    reveal(undo_begins);
}

/// What has an effect outside happens only after the state was kept that speaks of it: such a need
/// is shown only as the answer to a state that was kept, and nothing has changed since; when it
/// falls due, keeping the state is what is needed; and a state that cannot be kept ends the job.
pub proof fn law_kept_before_effects(
    config: Config,
    rt: RuntimeView,
    job: JobView,
    time: u64,
    stage: ErrandStageView,
    waiting: Option<NeedView>,
    reply: ReplyView,
)
    ensures
        ({
            let next = errand_step(config, rt, job, time, stage, waiting, reply);
            &&& kept_first(next.turn.need) ==> {
                &&& waiting == Some(next.turn.need)
                &&& reply is Done
                &&& next.turn.rt == rt
                &&& next.turn.job == job
            }
            &&& next.waiting is Some ==> next.turn.need is Save && kept_first(next.waiting->0)
            &&& waiting is Some && reply !is Done ==> next.turn.need is Finish && next.turn.rt == rt
        }),
        !kept_first(gated(execution(config, rt, job, time)).turn.need),
{
}

// ---------------------------------------------------------------------------
// Looking for work, commands and ticks

proof fn lemma_enqueue(config: Config)
    ensures
        forall|rt: RuntimeView, id: Seq<char>, work: WorkView, time: u64, archived: bool|
            #![trigger enqueued(config.agent.max_jobs as nat, rt, id, work, time, archived)]
            orderly(config, rt.state) ==> orderly(
                config,
                enqueued(config.agent.max_jobs as nat, rt, id, work, time, archived).0.state,
            ),
{
    assert forall|rt: RuntimeView, id: Seq<char>, work: WorkView, time: u64, archived: bool|
        #![trigger enqueued(config.agent.max_jobs as nat, rt, id, work, time, archived)]
        orderly(config, rt.state) implies orderly(
        config,
        enqueued(config.agent.max_jobs as nat, rt, id, work, time, archived).0.state,
    ) by {
        law_enqueue_is_orderly(config, rt, id, work, time, archived);
    }
}

#[verifier::rlimit(40)]
proof fn lemma_chat_is_orderly(
    config: Config,
    rt: RuntimeView,
    time: u64,
    stage: SeekStageView,
    event: SeekEventView,
)
    requires
        orderly(config, rt.state),
    ensures
        orderly(config, chat_seek(config, rt, time, stage, event).rt.state),
{
    lemma_enqueue(config);
    reveal(chat_seek);
}

/// Looking for work keeps the state orderly, step by step.
#[verifier::rlimit(40)]
pub proof fn law_seeking_is_orderly(
    config: Config,
    rt: RuntimeView,
    time: u64,
    stage: SeekStageView,
    event: SeekEventView,
)
    requires
        orderly(config, rt.state),
    ensures
        orderly(config, seek_step(config, rt, time, stage, event).rt.state),
        orderly(config, scheduling(config, rt, time).rt.state),
        orderly(config, mail_begins(config, rt).rt.state),
        orderly(config, papers_begin(config, rt).rt.state),
        orderly(config, chat_begins(config, rt, time).rt.state),
{
    lemma_enqueue(config);
    assert(orderly(config, due_progress(config, rt, time, stage, event).rt.state)) by {
        reveal(due_progress);
    }
    assert(orderly(config, mail_seek(config, rt, time, stage, event).rt.state)) by {
        reveal(mail_seek);
    }
    assert(orderly(config, paper_seek(config, rt, time, stage, event).rt.state)) by {
        reveal(paper_seek);
    }
    lemma_chat_is_orderly(config, rt, time, stage, event);
}

/// Commands keep the state orderly, step by step.
#[verifier::rlimit(40)]
pub proof fn law_commands_are_orderly(
    config: Config,
    rt: RuntimeView,
    command: CommandView,
    time: u64,
    stage: CommandStageView,
    event: CommandEventView,
)
    requires
        orderly(config, rt.state),
    ensures
        orderly(config, commanded(config, rt, command, time).rt.state),
        orderly(config, command_step(config, rt, time, stage, event).rt.state),
{
    lemma_enqueue(config);
    law_checkpoint_is_orderly(config);
    assert(orderly(config, switched(rt, command).rt.state)) by {
        reveal(switched);
    }
    assert(orderly(config, tasked(config, rt, command, time).rt.state)) by {
        reveal(tasked);
    }
    assert(orderly(config, job_commanded(rt, command, time).rt.state)) by {
        reveal(job_commanded);
    }
}

/// Ticks keep the state orderly, step by step, and so does looking at the sources.
#[verifier::rlimit(40)]
pub proof fn law_ticks_are_orderly(
    config: Config,
    rt: RuntimeView,
    time: u64,
    stage: TickStageView,
    event: TickEventView,
    poll: PollStage,
    res: Result<(), FailureView>,
)
    requires
        orderly(config, rt.state),
    ensures
        orderly(config, tick_begins(rt, time).rt.state),
        orderly(config, tick_step(config, rt, time, stage, event).rt.state),
        orderly(config, poll_step(rt, time, poll, res).0.state),
{
    law_checkpoint_is_orderly(config);
    law_announcing_is_orderly(config);
}

/// The resident process keeps the state orderly, step by step.
pub proof fn law_residing_is_orderly(
    config: Config,
    rt: RuntimeView,
    stage: ResidentStageView,
    event: ResidentEventView,
)
    requires
        orderly(config, rt.state),
    ensures
        orderly(config, resident_round(rt).rt.state),
        orderly(config, resident_step(config, rt, stage, event).rt.state),
{
}

/// An agent that starts for the first time is orderly, and so is one that starts from an orderly
/// state.
pub proof fn law_start_is_orderly(config: Config, state: StateView, away: bool)
    requires
        orderly(config, state),
    ensures
        orderly(config, StateView::first(away)),
        loaded(Some(state), away) is Ok ==> orderly(config, loaded(Some(state), away)->Ok_0),
{
    let jobs = all_resumed(state.jobs);
    assert forall|i: int, j: int| 0 <= i < j < jobs.len() implies jobs[i].id != jobs[j].id by {
        assert(jobs[i].id == state.jobs[i].id && jobs[j].id == state.jobs[j].id);
    }
}

/// How far a tick has come.
pub open spec fn tick_rank(stage: TickStageView) -> nat {
    match stage {
        TickStageView::Archiving => 0,
        TickStageView::Scheduling => 1,
        TickStageView::Polling => 2,
        TickStageView::Saving => 3,
        TickStageView::Starting { .. } => 4,
        TickStageView::Running => 5,
        TickStageView::Settling => 6,
        TickStageView::Rearchiving => 7,
        TickStageView::Closing => 8,
        TickStageView::Finished => 9,
    }
}

/// A tick comes to its end and does one job at most: each of its steps leads to a later one, and a
/// job is done at one of them only.
pub proof fn law_one_job_per_tick(
    config: Config,
    rt: RuntimeView,
    time: u64,
    stage: TickStageView,
    event: TickEventView,
)
    requires
        stage !is Finished,
    ensures
        tick_rank(tick_step(config, rt, time, stage, event).stage) > tick_rank(stage),
        tick_step(config, rt, time, stage, event).need is Execute ==> stage is Starting,
        tick_step(config, rt, time, stage, event).stage is Finished <==> tick_step(
            config,
            rt,
            time,
            stage,
            event,
        ).need is Finish,
{
}

/// A job is kept as running, with its attempt counted, before it is begun.
pub proof fn law_started_before_run(
    config: Config,
    rt: RuntimeView,
    time: u64,
    event: TickEventView,
)
    ensures
        ({
            let turn = tick_step(config, rt, time, TickStageView::Saving, event);
            turn.stage is Starting ==> {
                &&& turn.need is Save
                &&& turn.stage->job.status == Status::Running
                &&& turn.rt.state.jobs == replaced(rt.state.jobs, turn.stage->job)
                &&& exists|at: int|
                    0 <= at < rt.state.jobs.len() && turn.stage->job == #[trigger] attempted(
                        rt.state.jobs[at],
                        time,
                    ) && rt.state.jobs[at].status == Status::Pending
            }
        }),
{
    law_picked(rt.state.jobs, time, rt.state.discord_retry_at);
    let turn = tick_step(config, rt, time, TickStageView::Saving, event);
    if turn.stage is Starting {
        let at = picked(rt.state.jobs, time, rt.state.discord_retry_at)->0;
        assert(turn.stage->job == attempted(rt.state.jobs[at], time));
    }
}

// ---------------------------------------------------------------------------
// Speech

proof fn lemma_next_spoken(list: Seq<AnnouncementView>, hushed: bool)
    ensures
        next_spoken(list, hushed) < list.len() ==> !hushed || list[next_spoken(
            list,
            hushed,
        ) as int].urgent,
        next_spoken(list, hushed) >= list.len() ==> forall|i: int|
            0 <= i < list.len() ==> !(#[trigger] list[i]).urgent,
    decreases list.len(),
{
    if list.len() > 0 && hushed && !list[0].urgent {
        let rest = list.drop_first();
        lemma_next_spoken(rest, hushed);
        if next_spoken(list, hushed) < list.len() {
            assert(rest[next_spoken(rest, hushed) as int] == list[next_spoken(list, hushed) as int]);
        } else {
            assert forall|i: int| 0 <= i < list.len() implies !(#[trigger] list[i]).urgent by {
                if i > 0 {
                    assert(rest[i - 1] == list[i]);
                }
            }
        }
    }
}

/// In the quiet hours only what is urgent is spoken, and nothing keeps it from being spoken; at
/// other times something is spoken whenever anything waits.
pub proof fn law_quiet_hours(config: Config, rt: RuntimeView, time: u64)
    ensures
        spoken(config, rt, time).1 is Some && quiet(config.agent.voice, time) ==> spoken(
            config,
            rt,
            time,
        ).1->0.urgent,
        !rt.state.paused && config.voice.enabled && spoken(config, rt, time).1 is None ==> {
            &&& forall|i: int|
                0 <= i < rt.state.announcements.len() ==> !(
                #[trigger] rt.state.announcements[i]).urgent
            &&& !quiet(config.agent.voice, time) ==> rt.state.announcements.len() == 0
        },
{
    lemma_next_spoken(rt.state.announcements, quiet(config.agent.voice, time));
}

/// What is spoken is taken from the list first, so that it is spoken once at most.
pub proof fn law_spoken_once(config: Config, rt: RuntimeView, time: u64)
    requires
        spoken(config, rt, time).1 is Some,
    ensures
        spoken(config, rt, time).0.state.announcements.len() + 1 == rt.state.announcements.len(),
        spoken(config, rt, time).0.state.last_spoken == spoken(config, rt, time).1,
        spoken(config, rt, time).0.state.jobs == rt.state.jobs,
{
}

/// Only critical mail is urgent.
pub proof fn law_critical_is_urgent(
    config: Config,
    rt: RuntimeView,
    job: JobView,
    decision: DecisionView,
)
    requires
        !announces(rt.state.announcements, job.id),
    ensures
        ({
            let list = mail_finished(config, rt, job, decision).rt.state.announcements;
            if crate::agent::errands::weighty(decision.tier) {
                list.last().id == job.id && list.last().urgent == (decision.tier
                    == crate::tasks::email::Tier::Critical)
            } else {
                list == rt.state.announcements
            }
        }),
{
    reveal(mail_finished);
}

// ---------------------------------------------------------------------------
// Ticks

/// A paused agent rests: a tick does nothing once the pause was taken over, and the tick that
/// takes it over only keeps what is finished; no job is begun or changed.
pub proof fn law_paused_agent_rests(config: Config, rt: RuntimeView, time: u64)
    requires
        rt.controls.paused,
    ensures
        rt.state.paused && rt.state.away == rt.controls.away ==> tick_begins(rt, time).rt == rt
            && tick_begins(rt, time).need == TickNeedView::Finish(Ok(())),
        tick_begins(rt, time).rt.state.paused || tick_begins(rt, time).need is Finish,
        tick_begins(rt, time).rt.state.jobs == rt.state.jobs,
        forall|now: RuntimeView|
            #![trigger tick_step(config, now, time, TickStageView::Archiving, TickEventView::Done)]
            now.state.paused ==> tick_step(
                config,
                now,
                time,
                TickStageView::Archiving,
                TickEventView::Done,
            ) == (crate::agent::ticking::TickTurn {
                rt: now,
                stage: TickStageView::Closing,
                need: TickNeedView::Save,
            }),
        forall|now: RuntimeView, event: TickEventView|
            #![trigger tick_step(config, now, time, TickStageView::Closing, event)]
            tick_step(config, now, time, TickStageView::Closing, event).need is Finish
                && tick_step(config, now, time, TickStageView::Closing, event).rt == now,
{
}

/// Retries are bounded: a job that waits again after a failure has attempts left, unless it only
/// waits for the next day's budget, for which the attempt does not count; and a wait that no
/// service asked for is a bit over two hours at most.
pub proof fn law_retries_are_bounded(
    config: Config,
    rt: RuntimeView,
    job: JobView,
    failure: FailureView,
    time: u64,
)
    ensures
        ({
            let after = settled(config, rt, job, Err(failure), time).1;
            &&& after.status == Status::Pending || after.status == Status::Review
            &&& after.status == Status::Pending && failure !is Budget ==> after.attempts
                < config.agent.max_attempts
            &&& failure is Budget && 0 < job.attempts ==> after.attempts == job.attempts - 1
            &&& failure is Review ==> after.status == Status::Review
        }),
        30 <= backoff(job.attempts) <= 7680,
{
    crate::agent::ticking::lemma_doubled(
        if job.attempts < 8 {
            job.attempts as nat
        } else {
            8
        },
        8,
    );
    crate::agent::ticking::lemma_doubled(
        0,
        if job.attempts < 8 {
            job.attempts as nat
        } else {
            8
        },
    );
    assert(crate::agent::ticking::doubled(8) == 256) by {
        reveal_with_fuel(crate::agent::ticking::doubled, 10);
    }
}

/// Periods that were missed are one period: what is queued depends on when it was due and not on
/// how late it is, and once it is queued the next is due after now.
pub proof fn law_missed_periods_coalesce(config: Config, rt: RuntimeView, time: u64, later_on: u64)
    requires
        rt.state.next_research <= time,
        rt.state.next_research <= later_on,
        config.agent.research_queries@.len() + config.agent.feeds@.len() > 0,
    ensures
        scheduling(config, rt, time) == scheduling(config, rt, later_on),
        due_on(config, rt, time, Seq::empty()).rt.state.next_research >= time,
{
    let items = searches(config.agent.research_queries@, rt.state.next_research) + sources(
        config.agent.feeds@,
        rt.state.next_research,
    );
    assert(items.len() > 0);
}

// ---------------------------------------------------------------------------
// Cursors

/// Nothing but looking for questions moves the place of a channel: no command, no tick, no search
/// for other work, no announcement, nothing that the resident process does beside, and no restart.
#[verifier::rlimit(40)]
pub proof fn law_places_are_kept(
    config: Config,
    rt: RuntimeView,
    time: u64,
    command: CommandView,
    ordering: CommandStageView,
    ordered: CommandEventView,
    ticking: TickStageView,
    ticked: TickEventView,
    poll: PollStage,
    res: Result<(), FailureView>,
    residing: ResidentStageView,
    received: ResidentEventView,
    rest: Seq<JobView>,
    away: bool,
)
    ensures
        same_places(rt.state, commanded(config, rt, command, time).rt.state),
        same_places(rt.state, command_step(config, rt, time, ordering, ordered).rt.state),
        same_places(rt.state, tick_begins(rt, time).rt.state),
        same_places(rt.state, tick_step(config, rt, time, ticking, ticked).rt.state),
        same_places(rt.state, poll_step(rt, time, poll, res).0.state),
        same_places(rt.state, resident_round(rt).rt.state),
        same_places(rt.state, resident_step(config, rt, residing, received).rt.state),
        same_places(rt.state, filing_step(rt, rest, res).rt.state),
        same_places(rt.state, spoken(config, rt, time).0.state),
        loaded(Some(rt.state), away) is Ok ==> same_places(
            rt.state,
            loaded(Some(rt.state), away)->Ok_0,
        ),
{
    assert(same_places(rt.state, switched(rt, command).rt.state)) by {
        reveal(switched);
    }
    assert(same_places(rt.state, tasked(config, rt, command, time).rt.state)) by {
        reveal(tasked);
    }
    assert(same_places(rt.state, job_commanded(rt, command, time).rt.state)) by {
        reveal(job_commanded);
    }
}

proof fn lemma_due_keeps_places(
    config: Config,
    rt: RuntimeView,
    time: u64,
    stage: SeekStageView,
    event: SeekEventView,
)
    ensures
        same_places(rt.state, due_progress(config, rt, time, stage, event).rt.state),
{
    reveal(due_progress);
}

proof fn lemma_mail_keeps_places(
    config: Config,
    rt: RuntimeView,
    time: u64,
    stage: SeekStageView,
    event: SeekEventView,
)
    ensures
        same_places(rt.state, mail_seek(config, rt, time, stage, event).rt.state),
{
    reveal(mail_seek);
}

proof fn lemma_papers_keep_places(
    config: Config,
    rt: RuntimeView,
    time: u64,
    stage: SeekStageView,
    event: SeekEventView,
)
    ensures
        same_places(rt.state, paper_seek(config, rt, time, stage, event).rt.state),
{
    reveal(paper_seek);
}

/// Looking for other work than questions leaves the channels where they are.
#[verifier::rlimit(40)]
pub proof fn law_seeking_keeps_places(
    config: Config,
    rt: RuntimeView,
    time: u64,
    stage: SeekStageView,
    event: SeekEventView,
)
    requires
        stage.quest() !is Chat,
    ensures
        same_places(rt.state, seek_step(config, rt, time, stage, event).rt.state),
        same_places(rt.state, scheduling(config, rt, time).rt.state),
        same_places(rt.state, mail_begins(config, rt).rt.state),
        same_places(rt.state, papers_begin(config, rt).rt.state),
{
    lemma_due_keeps_places(config, rt, time, stage, event);
    lemma_mail_keeps_places(config, rt, time, stage, event);
    lemma_papers_keep_places(config, rt, time, stage, event);
}

/// On the first connection to a channel nothing is queued: no old question is answered.
pub proof fn law_no_old_questions(config: Config, rt: RuntimeView, at: nat, list: Seq<MessageView>)
    ensures
        chat_started(config, rt, at, list).rt.state.jobs == rt.state.jobs,
{
}

/// While the user is present questions are passed by and not answered later: the place of the
/// channel moves on and nothing is queued.
pub proof fn law_present_user(
    config: Config,
    rt: RuntimeView,
    at: nat,
    cursor: Seq<char>,
    high: Seq<char>,
    finished: bool,
    rest: Seq<MessageView>,
)
    requires
        !rt.state.away,
    ensures
        chat_walk(config, rt, at, cursor, high, finished, rest).need !is LookUp,
        chat_walk(config, rt, at, cursor, high, finished, rest).rt.state.jobs == rt.state.jobs,
{
}

/// Whether the agent is paused and whether the user is away survives a restart.
pub proof fn law_preferences_survive(state: StateView, away: bool)
    requires
        state.version == 1,
    ensures
        ({
            let loaded = loaded(Some(state), away);
            &&& loaded is Ok
            &&& loaded->Ok_0.paused == state.paused
            &&& loaded->Ok_0.away == state.away
            &&& loaded->Ok_0.model_calls == state.model_calls
            &&& loaded->Ok_0.token_reservations == state.token_reservations
            &&& loaded->Ok_0.budget_day == state.budget_day
            &&& forall|i: int|
                0 <= i < loaded->Ok_0.jobs.len() ==> (#[trigger] loaded->Ok_0.jobs[i]).status
                    != Status::Running
        }),
{
}

// ---------------------------------------------------------------------------
// Nothing twice, and nothing for nothing

/// Work that was finished is not queued again, whenever and however it is offered.
pub proof fn law_finished_stays_finished(
    max_jobs: nat,
    rt: RuntimeView,
    id: Seq<char>,
    work: WorkView,
    time: u64,
)
    ensures
        enqueued(max_jobs, rt, id, work, time, true) == (rt, Ok::<bool, ErrorView>(false)),
{
}

/// A message is one job wherever it lies in its mailbox: once it is queued, finding it under
/// another path queues nothing.
pub proof fn law_message_is_one_job(
    config: Config,
    rt: RuntimeView,
    time: u64,
    again: u64,
    root: Seq<char>,
    left: nat,
    path: Seq<char>,
    other: Seq<char>,
    hash: Seq<char>,
)
    requires
        mail_looked(config, rt, time, root, left, path, hash, false).need is Save,
    ensures
        ({
            let now = mail_looked(config, rt, time, root, left, path, hash, false).rt;
            mail_looked(config, now, again, root, left, other, hash, false).rt.state == now.state
        }),
{
    let id = mail_identity(root, hash);
    law_offered_once(
        config.agent.max_jobs as nat,
        rt,
        id,
        WorkView::Email { path, hash },
        time,
        again,
        false,
    );
}

/// An agent with nothing to do does nothing: no model is asked, nothing is kept, nothing changes.
pub proof fn law_idle_agent(rt: RuntimeView, time: u64)
    requires
        !due(rt, time),
    ensures
        tick_begins(rt, time).rt == rt,
        tick_begins(rt, time).need == TickNeedView::Finish(Ok(())),
{
}

/// A message is moved only where moves are allowed, and not while the agent is paused or stopping.
pub proof fn law_moves_heed_controls(
    config: Config,
    rt: RuntimeView,
    job: JobView,
    decision: DecisionView,
)
    ensures
        mail_decided(config, rt, job, decision).need is Plan || mail_decided(
            config,
            rt,
            job,
            decision,
        ).need is Movement ==> {
            &&& config.agent.email.apply_moves
            &&& !rt.controls.paused
            &&& !rt.controls.stop
            &&& decision.fault() is None
        },
{
    reveal(mail_decided);
    reveal(mail_finished);
}

/// A job keeps a proposal only for the policy that it was made under: where the policy is another
/// and nothing was done yet, the proposal is made anew.
pub proof fn law_proposals_follow_policy(job: JobView, policy: JsonView)
    ensures
        current(job, policy).proposal is Some ==> job.policy == Some(policy) || job.action is Some,
        current(job, policy).action == job.action,
{
}

/// Before a model is asked, a reply is sent or a move is applied for the first time, the state is
/// kept, and then just that is done; any other step is taken at once.
pub proof fn law_state_is_kept_first(
    config: Config,
    rt: RuntimeView,
    job: JobView,
    time: u64,
    stage: ErrandStageView,
    reply: ReplyView,
)
    ensures
        ({
            let turn = progress(config, rt, job, time, stage, reply);
            let next = errand_step(config, rt, job, time, stage, None, reply);
            let then = errand_step(
                config,
                next.turn.rt,
                next.turn.job,
                time,
                next.turn.stage,
                next.waiting,
                ReplyView::Done,
            );
            let outside = turn.need is Model || turn.need is Send || (turn.need is Apply
                && turn.need->keep);
            &&& next.turn.rt == turn.rt
            &&& next.turn.job == turn.job
            &&& next.turn.stage == turn.stage
            &&& outside ==> next.turn.need == NeedView::Save && then.turn == turn && then.waiting
                is None
            &&& !outside ==> next.turn == turn && next.waiting is None
        }),
        ({
            let turn = execution(config, rt, job, time);
            let next = gated(turn);
            let outside = turn.need is Model || turn.need is Send || (turn.need is Apply
                && turn.need->keep);
            &&& outside ==> next.turn == (Turn { need: NeedView::Save, ..turn }) && next.waiting
                == Some(turn.need)
            &&& !outside ==> next.turn == turn && next.waiting is None
        }),
{
}

/// A process starts with the state that it was given, and heeds what the state says of a pause and
/// of the user's absence; nothing is open, and nothing was stopped.
pub proof fn law_started(state: StateView)
    ensures
        ({
            let rt = crate::agent::runtime::started(state);
            &&& rt.state == state
            &&& rt.controls.paused == state.paused
            &&& rt.controls.away == state.away
            &&& !rt.controls.stop && !rt.stopped
            &&& !rt.mail_open && !rt.paper_open && rt.mail_directory == 0
        }),
{
}

} // verus!
