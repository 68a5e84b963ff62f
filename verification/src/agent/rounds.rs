//! What comes of a tick.
use crate::agent::answers::{law_announcing_tells, tells};
use crate::agent::config::AgentVoice;
use crate::agent::runtime::{
    archived_in, filing, filing_step, next_spoken, quiet, spoken, FilingNeedView, FilingTurn,
    RuntimeView,
};
use crate::agent::state::{
    done, loaded, others, replaced, AnnouncementView, JobView, StateView, Status,
};
use crate::agent::ticking::{
    backoff, doubled, law_picked, later, noted, picked, poll_step, ready, runnable, settled,
    some_ready, tick_begins, tick_step, PollNeedView, PollStage, Source, TickEventView,
    TickNeedView, TickStageView,
};
use crate::base::config::Config;
use crate::error::ErrorView;
use crate::failure::FailureView;
use crate::json::JsonView;
use crate::table::{found, law_holding, law_without};
use vstd::prelude::*;

verus! {

// ---------------------------------------------------------------------------
// When and what

/// A tick does something exactly if something is due: the user switched something, or the agent is
/// not paused and a look for work, a round of research, a finished job or a waiting one is due. It
/// then takes the switches over and begins with the finished jobs.
pub proof fn law_tick_begins(rt: RuntimeView, time: u64)
    ensures
        ({
            let turn = tick_begins(rt, time);
            let waits = exists|i: int|
                0 <= i < rt.state.jobs.len() && ((#[trigger] rt.state.jobs[i]).status
                    == Status::Done || (rt.state.jobs[i].status == Status::Pending
                    && rt.state.jobs[i].next_attempt <= time));
            let called = rt.state.paused != rt.controls.paused || rt.state.away != rt.controls.away
                || (!rt.controls.paused && (rt.state.next_poll <= time || rt.state.next_rundown
                <= time || waits));
            &&& !called ==> turn.rt == rt && turn.need == TickNeedView::Finish(Ok(()))
            &&& called ==> {
                &&& turn.need == TickNeedView::Archive
                &&& turn.stage == TickStageView::Archiving
                &&& turn.rt.state.paused == rt.controls.paused
                &&& turn.rt.state.away == rt.controls.away
                &&& turn.rt == rt.with_state(
                    StateView {
                        paused: turn.rt.state.paused,
                        away: turn.rt.state.away,
                        ..rt.state
                    },
                )
            }
        }),
{
    let waits = exists|i: int|
        0 <= i < rt.state.jobs.len() && ((#[trigger] rt.state.jobs[i]).status == Status::Done || (
        rt.state.jobs[i].status == Status::Pending && rt.state.jobs[i].next_attempt <= time));
    if waits {
        let i = choose|i: int|
            0 <= i < rt.state.jobs.len() && ((#[trigger] rt.state.jobs[i]).status == Status::Done
                || (rt.state.jobs[i].status == Status::Pending && rt.state.jobs[i].next_attempt
                <= time));
        assert(ready(rt.state.jobs[i], time));
    }
    if some_ready(rt.state.jobs, time) {
        let i = choose|i: int|
            0 <= i < rt.state.jobs.len() && ready(
                #[trigger] rt.state.jobs[i],
                time,
            );
        assert(rt.state.jobs[i].status == rt.state.jobs[i].status);
    }
}

/// A time so many seconds on, if there is such a time.
pub open spec fn after(time: u64, seconds: int, then: u64) -> bool {
    then == if time + seconds > u64::MAX {
        u64::MAX as int
    } else {
        time + seconds
    }
}

/// The course of a round: the research that is due is queued first, then work is looked for if
/// that is due, each of them no sooner than the settings say after the last time; and then the
/// state is kept before a job is picked.
pub proof fn law_round(config: Config, rt: RuntimeView, time: u64)
    requires
        !rt.state.paused,
    ensures
        ({
            let turn = tick_step(config, rt, time, TickStageView::Archiving, TickEventView::Done);
            &&& rt.state.next_rundown <= time ==> turn.rt == rt && turn.need
                == TickNeedView::Schedule && turn.stage == TickStageView::Scheduling
            &&& rt.state.next_rundown > time ==> looks(config, rt, time, turn.rt, turn.need)
        }),
        ({
            let turn = tick_step(config, rt, time, TickStageView::Scheduling, TickEventView::Done);
            &&& after(time, config.agent.rundown_secs as int, turn.rt.state.next_rundown)
            &&& found(turn.rt.state.connector_errors, "scheduler"@) is None
            &&& turn.rt.state.jobs == rt.state.jobs
            &&& rt.state.next_poll <= time ==> turn.need == TickNeedView::Poll
            &&& rt.state.next_poll > time ==> turn.need == TickNeedView::Save
        }),
        tick_step(config, rt, time, TickStageView::Polling, TickEventView::Done).need
            == TickNeedView::Save,
        tick_step(config, rt, time, TickStageView::Polling, TickEventView::Done).stage
            == TickStageView::Saving,
        tick_step(config, rt, time, TickStageView::Settling, TickEventView::Done).need
            == TickNeedView::Archive,
        tick_step(config, rt, time, TickStageView::Rearchiving, TickEventView::Done).need
            == TickNeedView::Save,
        tick_step(config, rt, time, TickStageView::Closing, TickEventView::Done).need
            == TickNeedView::Finish(Ok(())),
{
    law_without(rt.state.connector_errors, "scheduler"@, "scheduler"@);
}

/// Work is looked for if that is due, and the next time is set; else the state is kept.
pub open spec fn looks(
    config: Config,
    rt: RuntimeView,
    time: u64,
    now: RuntimeView,
    need: TickNeedView,
) -> bool {
    if rt.state.next_poll <= time {
        &&& need == TickNeedView::Poll
        &&& after(time, config.agent.poll_secs as int, now.state.next_poll)
        &&& now == rt.with_state(StateView { next_poll: now.state.next_poll, ..rt.state })
    } else {
        need == TickNeedView::Save && now == rt
    }
}

/// Research that could not be queued is not put off: it stays due, the round goes on, and the
/// failure is kept to be reported.
pub proof fn law_round_after_failure(
    config: Config,
    rt: RuntimeView,
    time: u64,
    failure: FailureView,
)
    ensures
        ({
            let turn = tick_step(
                config,
                rt,
                time,
                TickStageView::Scheduling,
                TickEventView::Failed(failure),
            );
            &&& turn.rt.state.next_rundown == rt.state.next_rundown
            &&& found(turn.rt.state.connector_errors, "scheduler"@) == Some(failure.text())
            &&& turn.need == TickNeedView::Poll || turn.need == TickNeedView::Save
        }),
{
    law_holding(rt.state.connector_errors, "scheduler"@, failure.text(), "scheduler"@);
}

/// What is done first: what the user asked for, and what the user wants undone, before mail, mail
/// before questions, and questions before research and the rest; of the same kind, what came
/// first. A job that waits for a later time, or a question while the service wants to be left
/// alone, is not picked.
pub proof fn law_what_comes_first(jobs: Seq<JobView>, time: u64, retry_at: u64, i: int)
    requires
        0 <= i < jobs.len(),
        jobs[i].status == Status::Pending,
        jobs[i].next_attempt <= time,
        jobs[i].work is Discord ==> retry_at <= time,
    ensures
        picked(jobs, time, retry_at) is Some,
        ({
            let at = picked(jobs, time, retry_at)->0;
            let first = jobs[at].work;
            &&& 0 <= at < jobs.len()
            &&& jobs[at].status == Status::Pending
            &&& jobs[at].next_attempt <= time
            &&& first is Discord ==> retry_at <= time
            &&& jobs[i].work is Ask || jobs[i].work is Undo ==> (first is Ask || first is Undo)
                && at <= i
            &&& jobs[i].work is Email ==> first is Ask || first is Undo || (first is Email && at
                <= i)
            &&& jobs[i].work is Discord ==> first is Ask || first is Undo || first is Email || (
            first is Discord && at <= i)
            &&& !(first is Ask || first is Undo || first is Email || first is Discord) ==> at <= i
        }),
{
    law_picked(jobs, time, retry_at);
    assert(runnable(jobs[i], time, retry_at));
}

/// The job that was picked is begun: it is counted as one more attempt, kept as running, and then
/// done as it was kept.
pub proof fn law_job_is_begun(config: Config, rt: RuntimeView, time: u64)
    ensures
        ({
            let turn = tick_step(config, rt, time, TickStageView::Saving, TickEventView::Done);
            match picked(rt.state.jobs, time, rt.state.discord_retry_at) {
                None => turn.rt == rt && turn.need == TickNeedView::Finish(Ok(())),
                Some(at) => {
                    let job = rt.state.jobs[at];
                    let now = turn.stage->job;
                    &&& turn.stage is Starting
                    &&& turn.need == TickNeedView::Save
                    &&& now.status == Status::Running
                    &&& job.attempts < u32::MAX ==> now.attempts == job.attempts + 1
                    &&& now.updated == time
                    &&& now == (JobView {
                        status: now.status,
                        attempts: now.attempts,
                        updated: now.updated,
                        ..job
                    })
                    &&& turn.rt == rt.with_jobs(replaced(rt.state.jobs, now))
                    &&& tick_step(config, turn.rt, time, turn.stage, TickEventView::Done).need
                        == (TickNeedView::Execute { job: now })
                    &&& tick_step(config, turn.rt, time, turn.stage, TickEventView::Done).rt
                        == turn.rt
                },
            }
        }),
{
}

// ---------------------------------------------------------------------------
// What came of a job

/// How long a job waits after a failure that no service explained: half a minute, doubled with
/// each attempt up to the eighth.
pub proof fn law_backoff(attempts: u32)
    ensures
        backoff(0) == 30,
        attempts < 8 ==> backoff((attempts + 1) as u32) == 2 * backoff(attempts),
        attempts >= 8 ==> backoff(attempts) == 7680,
{
    assert(backoff(0) == 30) by {
        reveal_with_fuel(doubled, 2);
    }
    if attempts >= 8 {
        assert(doubled(8) == 256) by {
            reveal_with_fuel(doubled, 10);
        }
    }
}

/// A job that succeeded is done, with its result and no error, and nothing else changes.
pub proof fn law_success(
    config: Config,
    rt: RuntimeView,
    job: JobView,
    result: JsonView,
    time: u64,
)
    ensures
        ({
            let turn = tick_step(
                config,
                rt,
                time,
                TickStageView::Running,
                TickEventView::Executed { job, res: Ok(result) },
            );
            let now = settled(config, rt, job, Ok(result), time).1;
            &&& now.status == Status::Done
            &&& now.result == Some(result)
            &&& now.error is None
            &&& now == (JobView {
                status: now.status,
                result: now.result,
                error: now.error,
                ..job
            })
            &&& turn.rt == rt.with_jobs(replaced(rt.state.jobs, now))
            &&& turn.need == TickNeedView::Save
            &&& turn.stage == TickStageView::Settling
        }),
{
}

/// A job for which the day's budget did not suffice waits for the next day, and the attempt does
/// not count.
pub proof fn law_out_of_budget(config: Config, rt: RuntimeView, job: JobView, time: u64)
    requires
        (rt.state.budget_day + 1) * 86400 <= u64::MAX,
    ensures
        ({
            let (after, now) = settled(config, rt, job, Err(FailureView::Budget), time);
            &&& after == rt
            &&& now.status == Status::Pending
            &&& now.next_attempt == (rt.state.budget_day + 1) * 86400
            &&& now.attempts == if job.attempts > 0 {
                job.attempts - 1
            } else {
                0
            }
            &&& now.error == Some("daily model budget exhausted"@)
            &&& now == (JobView {
                status: now.status,
                next_attempt: now.next_attempt,
                attempts: now.attempts,
                error: now.error,
                ..job
            })
        }),
{
}

/// A job that needs the user, and one that has failed as often as it may, waits for the user, who
/// is told so and why.
pub proof fn law_left_to_the_user(
    config: Config,
    rt: RuntimeView,
    job: JobView,
    failure: FailureView,
    time: u64,
)
    requires
        failure is Review || (failure !is Budget && job.attempts >= config.agent.max_attempts),
    ensures
        ({
            let (after, now) = settled(config, rt, job, Err(failure), time);
            &&& now.status == Status::Review
            &&& now.error == Some(failure.text())
            &&& now == (JobView { status: now.status, error: now.error, ..job })
            &&& tells(
                rt,
                after,
                AnnouncementView {
                    id: job.id,
                    text:
                        "A task needs your review. You can inspect it in the activity history."@,
                    detail: failure.text(),
                    urgent: false,
                },
            )
        }),
{
    law_announcing_tells(
        rt,
        job.id,
        "A task needs your review. You can inspect it in the activity history."@,
        failure.text(),
        false,
    );
}

/// A job that failed and has attempts left waits: as long as the service asked, or longer with
/// each attempt. After the failure of a question all questions wait as long.
pub proof fn law_tried_again(
    config: Config,
    rt: RuntimeView,
    job: JobView,
    failure: FailureView,
    time: u64,
)
    requires
        failure !is Review,
        failure !is Budget,
        job.attempts < config.agent.max_attempts,
    ensures
        ({
            let (then, now) = settled(config, rt, job, Err(failure), time);
            &&& now.status == Status::Pending
            &&& now.error == Some(failure.text())
            &&& after(
                time,
                match failure {
                    FailureView::Later(seconds) => seconds as int,
                    _ => backoff(job.attempts) as int,
                },
                now.next_attempt,
            )
            &&& now == (JobView {
                status: now.status,
                error: now.error,
                next_attempt: now.next_attempt,
                ..job
            })
            &&& job.work !is Discord ==> then == rt
            &&& job.work is Discord ==> then == rt.with_state(
                StateView { discord_retry_at: now.next_attempt, ..rt.state },
            )
        }),
{
}

// ---------------------------------------------------------------------------
// Looking for work

/// Work is looked for in the mailbox, then among the papers, then on Discord, whatever fails; each
/// failure is kept under the name of its source until a look there succeeds, and Discord is left
/// alone as long as it asks. Then the state is kept.
pub proof fn law_poll(rt: RuntimeView, time: u64, res: Result<(), FailureView>)
    ensures
        ({
            let (now, stage, need) = poll_step(rt, time, PollStage::Looking(Source::Email), res);
            &&& need == PollNeedView::Discover(Source::Papers)
            &&& stage == PollStage::Looking(Source::Papers)
            &&& notes(rt, now, "email"@, res)
            &&& now.state.discord_retry_at == rt.state.discord_retry_at
        }),
        ({
            let (now, stage, need) = poll_step(rt, time, PollStage::Looking(Source::Papers), res);
            &&& need == PollNeedView::Discover(Source::Discord)
            &&& stage == PollStage::Looking(Source::Discord)
            &&& notes(rt, now, "papers"@, res)
            &&& now.state.discord_retry_at == rt.state.discord_retry_at
        }),
        ({
            let (now, stage, need) = poll_step(rt, time, PollStage::Looking(Source::Discord), res);
            &&& need == PollNeedView::Save
            &&& stage == PollStage::Saving
            &&& notes(rt, now, "discord"@, res)
            &&& res is Err && res->Err_0 is Later ==> after(
                time,
                res->Err_0->Later_0 as int,
                now.state.discord_retry_at,
            )
            &&& !(res is Err && res->Err_0 is Later) ==> now.state.discord_retry_at
                == rt.state.discord_retry_at
        }),
        poll_step(rt, time, PollStage::Saving, res) == (
            rt,
            PollStage::Finished,
            PollNeedView::Finish(res),
        ),
{
    lemma_notes(rt, "email"@, res);
    lemma_notes(rt, "papers"@, res);
    lemma_notes(rt, "discord"@, res);
    if res is Err && res->Err_0 is Later {
        let waiting = rt.with_state(
            StateView {
                discord_retry_at: later(time, res->Err_0->Later_0 as nat),
                ..rt.state
            },
        );
        lemma_notes(waiting, "discord"@, res);
    }
}

/// What failed under a name is kept under it, and taken from it when it succeeds; the others stay.
pub open spec fn notes(
    before: RuntimeView,
    now: RuntimeView,
    name: Seq<char>,
    res: Result<(), FailureView>,
) -> bool {
    &&& now.state.jobs == before.state.jobs
    &&& now.state.announcements == before.state.announcements
    &&& found(now.state.connector_errors, name) == (match res {
        Ok(_) => None,
        Err(failure) => Some(failure.text()),
    })
    &&& forall|other: Seq<char>|
        other != name ==> #[trigger] found(now.state.connector_errors, other) == found(
            before.state.connector_errors,
            other,
        )
}

proof fn lemma_notes(rt: RuntimeView, name: Seq<char>, res: Result<(), FailureView>)
    ensures
        notes(rt, noted(rt, name, res), name, res),
{
    let now = noted(rt, name, res);
    let list = rt.state.connector_errors;
    match res {
        Ok(_) => {
            law_without(list, name, name);
        },
        Err(failure) => {
            law_holding(list, name, failure.text(), name);
        },
    }
    assert forall|other: Seq<char>| other != name implies #[trigger] found(
        now.state.connector_errors,
        other,
    ) == found(list, other) by {
        match res {
            Ok(_) => {
                law_without(list, name, other);
            },
            Err(failure) => {
                law_holding(list, name, failure.text(), other);
            },
        }
    }
}

// ---------------------------------------------------------------------------
// Finished jobs

/// The jobs that are asked to be kept while each of them is kept, and the state that is left.
pub open spec fn all_filed(turn: FilingTurn) -> (Seq<(Seq<char>, JobView)>, RuntimeView)
    decreases turn.rest.len(),
{
    match turn.need {
        FilingNeedView::Keep { name, job } => if turn.rest.len() == 0 {
            (seq![(name, job)], turn.rt)
        } else {
            let next = filing_step(turn.rt, turn.rest, Ok(()));
            if next.rest.len() < turn.rest.len() {
                let later = all_filed(next);
                (seq![(name, job)] + later.0, later.1)
            } else {
                (seq![(name, job)], turn.rt)
            }
        },
        FilingNeedView::Finish(_) => (Seq::empty(), turn.rt),
    }
}

/// Every finished job is kept, in order, under the name of its identity, and leaves the queue; the
/// other jobs stay in it as they were.
pub proof fn law_finished_jobs_are_kept(rt: RuntimeView, jobs: Seq<JobView>)
    ensures
        ({
            let (kept, left) = all_filed(filing(rt, jobs));
            &&& kept == Seq::new(
                jobs.len(),
                |i: int| ("activity-"@ + jobs[i].id + ".json"@, jobs[i]),
            )
            &&& forall|job: JobView| #[trigger]
                left.state.jobs.contains(job) <==> rt.state.jobs.contains(job) && !(exists|i: int|
                    0 <= i < jobs.len() && (#[trigger] jobs[i]).id == job.id)
            &&& left.state.announcements == rt.state.announcements
        }),
    decreases jobs.len(),
{
    let (kept, left) = all_filed(filing(rt, jobs));
    let owed = Seq::new(jobs.len(), |i: int| ("activity-"@ + jobs[i].id + ".json"@, jobs[i]));
    if jobs.len() == 0 {
        assert(kept =~= owed);
    } else {
        let next = archived_in(rt, jobs[0]);
        let rest = jobs.drop_first();
        law_finished_jobs_are_kept(next, rest);
        let later = Seq::new(
            rest.len(),
            |i: int| ("activity-"@ + rest[i].id + ".json"@, rest[i]),
        );
        assert(owed =~= seq![owed[0]] + later);
        assert(kept =~= owed);
        lemma_others_members(rt.state.jobs, jobs[0].id);
        assert forall|job: JobView| #[trigger]
            left.state.jobs.contains(job) <==> rt.state.jobs.contains(job) && !(exists|i: int|
                0 <= i < jobs.len() && (#[trigger] jobs[i]).id == job.id) by {
            let named = exists|i: int| 0 <= i < jobs.len() && (#[trigger] jobs[i]).id == job.id;
            let later_named = exists|i: int|
                0 <= i < rest.len() && (#[trigger] rest[i]).id == job.id;
            assert(named <==> (jobs[0].id == job.id || later_named)) by {
                if named && jobs[0].id != job.id {
                    let i = choose|i: int|
                        0 <= i < jobs.len() && (#[trigger] jobs[i]).id == job.id;
                    assert(rest[i - 1].id == job.id);
                }
                if later_named {
                    let i = choose|i: int| 0 <= i < rest.len() && (#[trigger] rest[i]).id == job.id;
                    assert(jobs[i + 1].id == job.id);
                }
            }
            assert(next.state.jobs.contains(job) <==> rt.state.jobs.contains(job) && job.id
                != jobs[0].id);
        }
    }
}

proof fn lemma_others_members(jobs: Seq<JobView>, id: Seq<char>)
    ensures
        forall|job: JobView| #[trigger]
            others(jobs, id).contains(job) <==> jobs.contains(job) && job.id != id,
    decreases jobs.len(),
{
    if jobs.len() > 0 {
        let rest = jobs.drop_last();
        let last = jobs.last();
        lemma_others_members(rest, id);
        assert forall|job: JobView| #[trigger] others(jobs, id).contains(job) <==> jobs.contains(job)
            && job.id != id by {
            let less = others(rest, id);
            assert(jobs.contains(job) <==> rest.contains(job) || job == last) by {
                if jobs.contains(job) && job != last {
                    let k = choose|k: int| 0 <= k < jobs.len() && jobs[k] == job;
                    assert(rest[k] == job);
                }
                if rest.contains(job) {
                    let k = choose|k: int| 0 <= k < rest.len() && rest[k] == job;
                    assert(jobs[k] == job);
                }
                assert(jobs[jobs.len() - 1] == last);
            }
            if last.id != id {
                let now = less.push(last);
                assert(now.contains(job) <==> less.contains(job) || job == last) by {
                    if now.contains(job) && job != last {
                        let k = choose|k: int| 0 <= k < now.len() && now[k] == job;
                        assert(less[k] == job);
                    }
                    if less.contains(job) {
                        let k = choose|k: int| 0 <= k < less.len() && less[k] == job;
                        assert(now[k] == job);
                    }
                    assert(now[now.len() - 1] == last);
                }
            }
        }
    }
}

/// The finished jobs are those that are done, in order; no other is kept, and none of them is left
/// out.
pub proof fn law_done(jobs: Seq<JobView>)
    ensures
        forall|job: JobView| #[trigger]
            done(jobs).contains(job) <==> jobs.contains(job) && job.status == Status::Done,
    decreases jobs.len(),
{
    if jobs.len() > 0 {
        let rest = jobs.drop_last();
        let last = jobs.last();
        law_done(rest);
        let less = done(rest);
        assert forall|job: JobView| #[trigger] done(jobs).contains(job) <==> jobs.contains(job)
            && job.status == Status::Done by {
            assert(jobs.contains(job) <==> rest.contains(job) || job == last) by {
                if jobs.contains(job) && job != last {
                    let k = choose|k: int| 0 <= k < jobs.len() && jobs[k] == job;
                    assert(rest[k] == job);
                }
                if rest.contains(job) {
                    let k = choose|k: int| 0 <= k < rest.len() && rest[k] == job;
                    assert(jobs[k] == job);
                }
                assert(jobs[jobs.len() - 1] == last);
            }
            if last.status == Status::Done {
                let now = less.push(last);
                assert(now.contains(job) <==> less.contains(job) || job == last) by {
                    if now.contains(job) && job != last {
                        let k = choose|k: int| 0 <= k < now.len() && now[k] == job;
                        assert(less[k] == job);
                    }
                    if less.contains(job) {
                        let k = choose|k: int| 0 <= k < less.len() && less[k] == job;
                        assert(now[k] == job);
                    }
                    assert(now[now.len() - 1] == last);
                }
            }
        }
    }
}

/// The newest of the recent jobs is the one that was kept last, and only the oldest makes way.
pub proof fn law_recent_jobs(rt: RuntimeView, job: JobView)
    requires
        rt.state.recent.len() <= 30,
    ensures
        ({
            let now = archived_in(rt, job).state.recent;
            &&& now.len() > 0
            &&& now.last() == job
            &&& now.len() <= 30
            &&& forall|old: JobView| #[trigger]
                rt.state.recent.contains(old) && old.id != job.id && rt.state.recent.len() < 30
                    ==> now.contains(old)
        }),
{
    lemma_others_members(rt.state.recent, job.id);
    let less = others(rt.state.recent, job.id);
    lemma_others_shorter(rt.state.recent, job.id);
    let all = less.push(job);
    let now = archived_in(rt, job).state.recent;
    assert(all.drop_first().len() > 0 ==> all.drop_first().last() == all.last());
    assert forall|old: JobView| #[trigger]
        rt.state.recent.contains(old) && old.id != job.id && rt.state.recent.len() < 30 implies now
        .contains(old) by {
        let k = choose|k: int| 0 <= k < less.len() && less[k] == old;
        assert(less.contains(old));
        assert(all[k] == old);
    }
}

proof fn lemma_others_shorter(jobs: Seq<JobView>, id: Seq<char>)
    ensures
        others(jobs, id).len() <= jobs.len(),
    decreases jobs.len(),
{
    if jobs.len() > 0 {
        lemma_others_shorter(jobs.drop_last(), id);
    }
}

// ---------------------------------------------------------------------------
// Speech

/// The quiet hours are those of the clock from their beginning to their end, over midnight if they
/// end before they begin: they hold at the first hour and not at the last, and what is quiet from
/// one hour to another is loud from the other to the one.
pub proof fn law_quiet_clock(voice: AgentVoice, other: AgentVoice, time: u64, day: u64)
    requires
        voice.quiet_start_utc is Some,
        voice.quiet_end_utc is Some,
        voice.quiet_start_utc->0 < 24,
        voice.quiet_end_utc->0 < 24,
        voice.quiet_start_utc != voice.quiet_end_utc,
        other.quiet_start_utc == voice.quiet_end_utc,
        other.quiet_end_utc == voice.quiet_start_utc,
        time + day * 86400 <= u64::MAX,
    ensures
        quiet(voice, time) != quiet(other, time),
        quiet(voice, (time + day * 86400) as u64) == quiet(voice, time),
        time as int / 3600 % 24 == voice.quiet_start_utc->0 ==> quiet(voice, time),
        time as int / 3600 % 24 == voice.quiet_end_utc->0 ==> !quiet(voice, time),
        quiet(voice, time) && time + 3600 <= u64::MAX && (time as int / 3600 + 1) % 24
            != voice.quiet_end_utc->0 ==> quiet(voice, (time + 3600) as u64),
{
    assert((time + day * 86400) / 3600 == time as int / 3600 + day * 24) by (nonlinear_arith);
    assert((time as int / 3600 + day * 24) % 24 == time as int / 3600 % 24) by (nonlinear_arith);
    assert((time + 3600) / 3600 == time as int / 3600 + 1);
}

/// Without quiet hours nothing is quiet.
pub proof fn law_no_quiet_hours(voice: AgentVoice, time: u64)
    requires
        voice.quiet_start_utc is None || voice.quiet_end_utc is None,
    ensures
        !quiet(voice, time),
{
}

/// What is spoken is what has waited longest, in the quiet hours of what is urgent: nothing before
/// it in line could be spoken, it leaves the line, and the others keep their order.
pub proof fn law_spoken_in_turn(config: Config, rt: RuntimeView, time: u64, at: int)
    requires
        !rt.state.paused,
        config.voice.enabled,
        0 <= at < rt.state.announcements.len(),
        !quiet(config.agent.voice, time) || rt.state.announcements[at].urgent,
        forall|i: int|
            0 <= i < at ==> quiet(config.agent.voice, time) && !(
            #[trigger] rt.state.announcements[i]).urgent,
    ensures
        ({
            let list = rt.state.announcements;
            let (now, item) = spoken(config, rt, time);
            &&& item == Some(list[at])
            &&& now.state.announcements == list.take(at) + list.skip(at + 1)
            &&& now.state.last_spoken == Some(list[at])
            &&& now == rt.with_state(
                StateView {
                    announcements: now.state.announcements,
                    last_spoken: now.state.last_spoken,
                    ..rt.state
                },
            )
        }),
{
    let list = rt.state.announcements;
    lemma_spoken_at(list, quiet(config.agent.voice, time), at);
    assert(list.remove(at) =~= list.take(at) + list.skip(at + 1));
}

proof fn lemma_spoken_at(list: Seq<AnnouncementView>, hushed: bool, at: int)
    requires
        0 <= at < list.len(),
        !hushed || list[at].urgent,
        forall|i: int| 0 <= i < at ==> hushed && !(#[trigger] list[i]).urgent,
    ensures
        next_spoken(list, hushed) == at,
    decreases at,
{
    if at > 0 {
        assert(!list[0].urgent);
        assert(hushed);
        let rest = list.drop_first();
        assert forall|i: int| 0 <= i < at - 1 implies hushed && !(#[trigger] rest[i]).urgent by {
            assert(rest[i] == list[i + 1]);
        }
        lemma_spoken_at(rest, hushed, at - 1);
    }
}

/// A paused agent says nothing, and one without a voice says nothing.
pub proof fn law_silence(config: Config, rt: RuntimeView, time: u64)
    requires
        rt.state.paused || !config.voice.enabled,
    ensures
        spoken(config, rt, time) == (rt, None::<AnnouncementView>),
{
}

// ---------------------------------------------------------------------------
// Starting

/// The agent starts from what it kept: jobs that were interrupted wait again, with all that was
/// recorded of them, and nothing else changes; without anything kept it starts with nothing, as
/// the settings say present or away; and a state of another kind is refused.
pub proof fn law_start(state: StateView, away: bool)
    ensures
        loaded(None, away) is Ok,
        loaded(None, away)->Ok_0.jobs.len() == 0,
        loaded(None, away)->Ok_0.recent.len() == 0,
        loaded(None, away)->Ok_0.announcements.len() == 0,
        loaded(None, away)->Ok_0.away == away,
        !loaded(None, away)->Ok_0.paused,
        loaded(None, away)->Ok_0.model_calls == 0,
        state.version != 1 ==> loaded(Some(state), away) == Err::<StateView, ErrorView>(
            ErrorView::StateVersion,
        ),
        state.version == 1 ==> {
            let now = loaded(Some(state), away);
            &&& now is Ok
            &&& now->Ok_0 == (StateView { jobs: now->Ok_0.jobs, ..state })
            &&& now->Ok_0.jobs.len() == state.jobs.len()
            &&& forall|i: int|
                0 <= i < state.jobs.len() ==> #[trigger] now->Ok_0.jobs[i] == (
                if state.jobs[i].status == Status::Running {
                    JobView { status: Status::Pending, ..state.jobs[i] }
                } else {
                    state.jobs[i]
                })
        },
{
}

/// What fails in a tick ends the tick with it, and nothing is changed by it: only a look for
/// research that fails does not end it.
pub proof fn law_failed_tick(
    config: Config,
    rt: RuntimeView,
    time: u64,
    stage: TickStageView,
    failure: FailureView,
)
    requires
        stage !is Scheduling,
    ensures
        ({
            let turn = tick_step(config, rt, time, stage, TickEventView::Failed(failure));
            turn.rt == rt && turn.need == TickNeedView::Finish(Err(failure))
        }),
{
}

/// The steps of a tick that only keep or file something change nothing themselves.
pub proof fn law_keeping_changes_nothing(config: Config, rt: RuntimeView, time: u64, job: JobView)
    ensures
        tick_step(config, rt, time, TickStageView::Polling, TickEventView::Done).rt == rt,
        tick_step(config, rt, time, TickStageView::Starting { job }, TickEventView::Done).rt == rt,
        tick_step(config, rt, time, TickStageView::Settling, TickEventView::Done).rt == rt,
        tick_step(config, rt, time, TickStageView::Rearchiving, TickEventView::Done).rt == rt,
        tick_step(config, rt, time, TickStageView::Closing, TickEventView::Done).rt == rt,
        ({
            let turn = tick_step(config, rt, time, TickStageView::Scheduling, TickEventView::Done);
            let now = turn.rt.state;
            turn.rt == rt.with_state(
                StateView {
                    next_rundown: now.next_rundown,
                    next_poll: now.next_poll,
                    connector_errors: now.connector_errors,
                    ..rt.state
                },
            )
        }),
{
}

} // verus!
