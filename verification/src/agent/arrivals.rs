//! What is found for the agent to do.
use crate::agent::discord::{
    after as comes_after, arranged, asks, in_order, law_arranged, law_received, newest_received, rank, snowflake_value,
    MessageView,
};
use crate::agent::intake::{
    chat_begins, chat_seek, due_on, due_progress, identity, mail_begins, mail_on, mail_seek,
    paper_seek, papers_begin, scheduling, searches, seek_step, sources, SeekEventView, SeekNeedView,
    SeekStageView, SeekTurn,
};
use crate::agent::rounds::after;
use crate::agent::runtime::RuntimeView;
use crate::agent::state::{known, lemma_place, JobView, StateView, Status, WorkView};
use crate::base::config::Config;
use crate::base::limits::digested;
use crate::error::ErrorView;
use crate::failure::FailureView;
use crate::table::{found, holding, law_holding, law_without, without};
use crate::text::{begins, ends, numeral};
use vstd::prelude::*;

verus! {

/// The identity of work is the digest of what names it.
pub proof fn law_identity(text: Seq<char>)
    ensures
        identity(text) == digested(vstd::utf8::encode_utf8(text)),
{
}

/// A job that is queued for work that was found.
pub open spec fn new_job(id: Seq<char>, work: WorkView, time: u64) -> JobView {
    JobView {
        id,
        work,
        status: Status::Pending,
        attempts: 0,
        calls: 0,
        next_attempt: time,
        created: time,
        updated: time,
        proposal: None,
        policy: None,
        action: None,
        result: None,
        error: None,
    }
}

/// None of the jobs has that identity.
pub open spec fn unheard(jobs: Seq<JobView>, id: Seq<char>) -> bool {
    forall|i: int| 0 <= i < jobs.len() ==> (#[trigger] jobs[i]).id != id
}

proof fn lemma_unheard(jobs: Seq<JobView>, id: Seq<char>)
    ensures
        unheard(jobs, id) <==> !known(jobs, id),
{
    lemma_place(jobs, id);
}

/// New jobs for work, one behind the other.
pub open spec fn new_jobs(items: Seq<(Seq<char>, WorkView)>, time: u64) -> Seq<JobView> {
    Seq::new(items.len(), |i: int| new_job(items[i].0, items[i].1, time))
}

/// The identities are all different, and none of the jobs has one of them.
pub open spec fn all_unheard(jobs: Seq<JobView>, items: Seq<(Seq<char>, WorkView)>) -> bool {
    &&& forall|i: int| 0 <= i < items.len() ==> unheard(jobs, (#[trigger] items[i]).0)
    &&& forall|i: int, j: int| 0 <= i < j < items.len() ==> items[i].0 != items[j].0
}

proof fn lemma_one_heard(jobs: Seq<JobView>, items: Seq<(Seq<char>, WorkView)>, job: JobView)
    requires
        items.len() > 0,
        all_unheard(jobs, items),
        job.id == items[0].0,
    ensures
        all_unheard(jobs.push(job), items.drop_first()),
{
    let rest = items.drop_first();
    assert forall|i: int| 0 <= i < rest.len() implies unheard(
        jobs.push(job),
        (#[trigger] rest[i]).0,
    ) by {
        assert(rest[i] == items[i + 1]);
        assert(unheard(jobs, items[i + 1].0));
        assert(items[0].0 != items[i + 1].0);
    }
}

// ---------------------------------------------------------------------------
// Research that is due

/// What comes of work that is offered while none of it was done before.
pub open spec fn offered_run(
    config: Config,
    time: u64,
    turn: SeekTurn,
    steps: nat,
) -> SeekTurn
    decreases steps,
{
    if steps == 0 {
        turn
    } else {
        match turn.need {
            SeekNeedView::LookUp(_) => offered_run(
                config,
                time,
                seek_step(config, turn.rt, time, turn.stage, SeekEventView::Known(false)),
                (steps - 1) as nat,
            ),
            SeekNeedView::Save => offered_run(
                config,
                time,
                seek_step(config, turn.rt, time, turn.stage, SeekEventView::Done),
                (steps - 1) as nat,
            ),
            _ => turn,
        }
    }
}

proof fn lemma_offered(
    config: Config,
    rt: RuntimeView,
    time: u64,
    items: Seq<(Seq<char>, WorkView)>,
    steps: nat,
)
    requires
        all_unheard(rt.state.jobs, items),
        rt.state.jobs.len() + items.len() <= config.agent.max_jobs,
        steps >= 2 * items.len(),
    ensures
        offered_run(config, time, due_on(config, rt, time, items), steps) == due_on(
            config,
            rt.with_jobs(rt.state.jobs + new_jobs(items, time)),
            time,
            Seq::empty(),
        ),
    decreases items.len(),
{
    reveal(due_progress);
    if items.len() == 0 {
        assert(rt.state.jobs + new_jobs(items, time) =~= rt.state.jobs);
        assert(items =~= Seq::empty());
    } else {
        reveal_with_fuel(offered_run, 3);
        let job = new_job(items[0].0, items[0].1, time);
        let now = rt.with_jobs(rt.state.jobs.push(job));
        assert(unheard(rt.state.jobs, items[0].0));
        lemma_unheard(rt.state.jobs, items[0].0);
        lemma_one_heard(rt.state.jobs, items, job);
        lemma_offered(config, now, time, items.drop_first(), (steps - 2) as nat);
        assert(rt.state.jobs + new_jobs(items, time) =~= now.state.jobs + new_jobs(
            items.drop_first(),
            time,
        ));
    }
}

/// Research that is due is queued, all of it: each query of the settings as a search and each feed
/// as a source, in their order, and then the next is due after the time that the settings say. What
/// is not due is not queued.
pub proof fn law_research_is_queued(config: Config, rt: RuntimeView, time: u64, steps: nat)
    requires
        steps >= 2 * (config.agent.research_queries@.len() + config.agent.feeds@.len()),
    ensures
        time < rt.state.next_research ==> scheduling(config, rt, time).rt == rt && scheduling(
            config,
            rt,
            time,
        ).need == SeekNeedView::Finish(Ok(())),
        ({
            let queries = config.agent.research_queries@;
            let feeds = config.agent.feeds@;
            let lead = numeral(rt.state.next_research as nat);
            let items = Seq::new(
                queries.len(),
                |i: int|
                    (
                        identity("search:"@ + lead + ":"@ + queries[i]@),
                        WorkView::Research { query: queries[i]@ },
                    ),
            ) + Seq::new(
                feeds.len(),
                |i: int|
                    (
                        identity("feed:"@ + lead + ":"@ + feeds[i]@),
                        WorkView::Feed { url: feeds[i]@ },
                    ),
            );
            let last = offered_run(config, time, scheduling(config, rt, time), steps);
            rt.state.next_research <= time && all_unheard(rt.state.jobs, items)
                && rt.state.jobs.len() + items.len() <= config.agent.max_jobs ==> {
                &&& last.need == SeekNeedView::Finish(Ok(()))
                &&& last.rt.state.jobs == rt.state.jobs + new_jobs(items, time)
                &&& after(time, config.agent.research_secs as int, last.rt.state.next_research)
                &&& last.rt == rt.with_state(
                    StateView {
                        jobs: last.rt.state.jobs,
                        next_research: last.rt.state.next_research,
                        ..rt.state
                    },
                )
            }
        }),
{
    let queries = config.agent.research_queries@;
    let feeds = config.agent.feeds@;
    let lead = numeral(rt.state.next_research as nat);
    let items = Seq::new(
        queries.len(),
        |i: int|
            (
                identity("search:"@ + lead + ":"@ + queries[i]@),
                WorkView::Research { query: queries[i]@ },
            ),
    ) + Seq::new(
        feeds.len(),
        |i: int|
            (
                identity("feed:"@ + lead + ":"@ + feeds[i]@),
                WorkView::Feed { url: feeds[i]@ },
            ),
    );
    let own = searches(queries, rt.state.next_research)
        + sources(feeds, rt.state.next_research);
    assert(own =~= items);
    if rt.state.next_research <= time && all_unheard(rt.state.jobs, items) && rt.state.jobs.len()
        + items.len() <= config.agent.max_jobs {
        lemma_offered(config, rt, time, items, steps);
    }
}

// ---------------------------------------------------------------------------
// Messages in the mailbox

/// How a mailbox answers that has these messages in its two directories: `ahead` is what is left of
/// the one that is open. Nothing was done about any of them before.
pub open spec fn mailbox_gives(
    fresh: Seq<(Seq<char>, Seq<u8>)>,
    seen: Seq<(Seq<char>, Seq<u8>)>,
    root: Seq<char>,
    ahead: Seq<(Seq<char>, Seq<u8>)>,
    need: SeekNeedView,
) -> (Seq<(Seq<char>, Seq<u8>)>, SeekEventView) {
    match need {
        SeekNeedView::Root { .. } => (ahead, SeekEventView::Root(root)),
        SeekNeedView::OpenMail { name, .. } => if name == "new"@ {
            (fresh, SeekEventView::Opened(true))
        } else {
            (seen, SeekEventView::Opened(true))
        },
        SeekNeedView::NextMail => if ahead.len() == 0 {
            (ahead, SeekEventView::End)
        } else {
            (ahead, SeekEventView::Entry { path: ahead[0].0, regular: true })
        },
        SeekNeedView::ReadMail { .. } => (ahead.drop_first(), SeekEventView::Bytes(ahead[0].1)),
        SeekNeedView::LookUp(_) => (ahead, SeekEventView::Known(false)),
        _ => (ahead, SeekEventView::Done),
    }
}

/// What comes of a look through the mailbox within `steps` answers.
pub open spec fn mailbox_run(
    config: Config,
    time: u64,
    fresh: Seq<(Seq<char>, Seq<u8>)>,
    seen: Seq<(Seq<char>, Seq<u8>)>,
    root: Seq<char>,
    ahead: Seq<(Seq<char>, Seq<u8>)>,
    turn: SeekTurn,
    steps: nat,
) -> SeekTurn
    decreases steps,
{
    if steps == 0 || turn.need is Finish {
        turn
    } else {
        let answer = mailbox_gives(fresh, seen, root, ahead, turn.need);
        mailbox_run(
            config,
            time,
            fresh,
            seen,
            root,
            answer.0,
            seek_step(config, turn.rt, time, turn.stage, answer.1),
            (steps - 1) as nat,
        )
    }
}

/// The work of messages: where each stands and its digest, and an identity of both the mailbox and
/// the digest.
pub open spec fn mail_work(root: Seq<char>, list: Seq<(Seq<char>, Seq<u8>)>) -> Seq<
    (Seq<char>, WorkView),
> {
    Seq::new(
        list.len(),
        |i: int|
            (
                identity("email:"@ + root + ":"@ + digested(list[i].1)),
                WorkView::Email { path: list[i].0, hash: digested(list[i].1) },
            ),
    )
}

/// A directory of the mailbox is open.
spec fn reading(rt: RuntimeView, root: Seq<char>, left: nat) -> SeekTurn {
    SeekTurn {
        rt: RuntimeView { mail_open: true, ..rt },
        stage: SeekStageView::MailTaking { root, left },
        need: SeekNeedView::NextMail,
    }
}

#[verifier::rlimit(40)]
proof fn lemma_directory(
    config: Config,
    rt: RuntimeView,
    time: u64,
    fresh: Seq<(Seq<char>, Seq<u8>)>,
    seen: Seq<(Seq<char>, Seq<u8>)>,
    root: Seq<char>,
    list: Seq<(Seq<char>, Seq<u8>)>,
    left: nat,
    steps: nat,
)
    requires
        all_unheard(rt.state.jobs, mail_work(root, list)),
        rt.state.jobs.len() + list.len() < config.agent.max_jobs,
        left > list.len(),
        steps >= 4 * list.len() + 1,
    ensures
        mailbox_run(config, time, fresh, seen, root, list, reading(rt, root, left), steps)
            == mailbox_run(
            config,
            time,
            fresh,
            seen,
            root,
            Seq::empty(),
            mail_on(
                config,
                RuntimeView {
                    mail_open: false,
                    ..rt.with_jobs(rt.state.jobs + new_jobs(mail_work(root, list), time))
                },
                root,
                (left - list.len()) as nat,
            ),
            (steps - 4 * list.len() - 1) as nat,
        ),
    decreases list.len(),
{
    reveal(mail_seek);
    let work = mail_work(root, list);
    if list.len() == 0 {
        assert(list =~= Seq::empty());
        assert(rt.state.jobs + new_jobs(work, time) =~= rt.state.jobs);
        reveal_with_fuel(mailbox_run, 2);
    } else {
        let job = new_job(work[0].0, work[0].1, time);
        let now = rt.with_jobs(rt.state.jobs.push(job));
        assert(unheard(rt.state.jobs, work[0].0));
        lemma_unheard(rt.state.jobs, work[0].0);
        lemma_one_heard(rt.state.jobs, work, job);
        assert(mail_work(root, list.drop_first()) =~= work.drop_first());
        lemma_message(config, rt, time, fresh, seen, root, list, left, steps);
        lemma_directory(
            config,
            now,
            time,
            fresh,
            seen,
            root,
            list.drop_first(),
            (left - 1) as nat,
            (steps - 4) as nat,
        );
        assert(rt.state.jobs + new_jobs(work, time) =~= now.state.jobs + new_jobs(
            work.drop_first(),
            time,
        ));
    }
}

proof fn lemma_message(
    config: Config,
    rt: RuntimeView,
    time: u64,
    fresh: Seq<(Seq<char>, Seq<u8>)>,
    seen: Seq<(Seq<char>, Seq<u8>)>,
    root: Seq<char>,
    list: Seq<(Seq<char>, Seq<u8>)>,
    left: nat,
    steps: nat,
)
    requires
        list.len() > 0,
        !known(rt.state.jobs, mail_work(root, list)[0].0),
        rt.state.jobs.len() + 1 < config.agent.max_jobs,
        left > 1,
        steps >= 4,
    ensures
        mailbox_run(config, time, fresh, seen, root, list, reading(rt, root, left), steps)
            == mailbox_run(
            config,
            time,
            fresh,
            seen,
            root,
            list.drop_first(),
            reading(
                rt.with_jobs(
                    rt.state.jobs.push(
                        new_job(mail_work(root, list)[0].0, mail_work(root, list)[0].1, time),
                    ),
                ),
                root,
                (left - 1) as nat,
            ),
            (steps - 4) as nat,
        ),
{
    reveal(mail_seek);
    reveal_with_fuel(mailbox_run, 5);
    let open = RuntimeView { mail_open: true, ..rt };
    let path = list[0].0;
    let hash = digested(list[0].1);
    let job = new_job(mail_work(root, list)[0].0, mail_work(root, list)[0].1, time);
    let now = RuntimeView { mail_open: true, ..rt.with_jobs(rt.state.jobs.push(job)) };
    assert(seek_step(
        config,
        open,
        time,
        SeekStageView::MailTaking { root, left },
        SeekEventView::Entry { path, regular: true },
    ) == (SeekTurn {
        rt: open,
        stage: SeekStageView::MailReading { root, left, path },
        need: SeekNeedView::ReadMail { path },
    }));
    assert(seek_step(
        config,
        open,
        time,
        SeekStageView::MailLooking { root, left, path, hash },
        SeekEventView::Known(false),
    ) == (SeekTurn {
        rt: now,
        stage: SeekStageView::MailSaving { root, left },
        need: SeekNeedView::Save,
    }));
    assert(seek_step(
        config,
        now,
        time,
        SeekStageView::MailSaving { root, left },
        SeekEventView::Done,
    ) == reading(rt.with_jobs(rt.state.jobs.push(job)), root, (left - 1) as nat));
}

proof fn lemma_split_unheard(
    jobs: Seq<JobView>,
    first: Seq<(Seq<char>, WorkView)>,
    second: Seq<(Seq<char>, WorkView)>,
    time: u64,
)
    requires
        all_unheard(jobs, first + second),
    ensures
        all_unheard(jobs, first),
        all_unheard(jobs + new_jobs(first, time), second),
{
    let all = first + second;
    assert forall|i: int| 0 <= i < first.len() implies unheard(jobs, (#[trigger] first[i]).0) by {
        assert(all[i] == first[i]);
    }
    assert forall|i: int, j: int| 0 <= i < j < first.len() implies first[i].0 != first[j].0 by {
        assert(all[i] == first[i] && all[j] == first[j]);
    }
    assert forall|j: int| 0 <= j < second.len() implies unheard(
        jobs + new_jobs(first, time),
        (#[trigger] second[j]).0,
    ) by {
        assert(all[first.len() + j] == second[j]);
        let now = jobs + new_jobs(first, time);
        assert forall|i: int| 0 <= i < now.len() implies (#[trigger] now[i]).id != second[j].0 by {
            if i < jobs.len() {
                assert(now[i] == jobs[i]);
            } else {
                let k = i - jobs.len();
                assert(now[i] == new_jobs(first, time)[k]);
                assert(all[k] == first[k]);
                assert(all[k].0 != all[first.len() + j].0);
            }
        }
    }
    assert forall|i: int, j: int| 0 <= i < j < second.len() implies second[i].0 != second[j].0 by {
        assert(all[first.len() + i] == second[i] && all[first.len() + j] == second[j]);
    }
}

#[verifier::spinoff_prover]
#[verifier::rlimit(40)]
proof fn lemma_new_opens(
    config: Config,
    rt: RuntimeView,
    time: u64,
    root: Seq<char>,
    fresh: Seq<(Seq<char>, Seq<u8>)>,
    seen: Seq<(Seq<char>, Seq<u8>)>,
    steps: nat,
)
    requires
        config.agent.email.maildir is Some,
        !rt.mail_open,
        rt.mail_directory == 0,
        rt.state.jobs.len() < config.agent.max_jobs,
        config.limits.max_emails_per_tick > 0,
        steps >= 2,
    ensures
        mailbox_run(
            config,
            time,
            fresh,
            seen,
            root,
            Seq::empty(),
            mail_begins(config, rt),
            steps,
        ) == mailbox_run(
            config,
            time,
            fresh,
            seen,
            root,
            fresh,
            reading(
                RuntimeView { mail_directory: 1, ..rt },
                root,
                (config.limits.max_emails_per_tick - 1) as nat,
            ),
            (steps - 2) as nat,
        ),
{
    reveal(mail_seek);
    reveal_strlit("new");
    reveal_strlit("cur");
    assert("new"@[0] != "cur"@[0]);
    reveal_with_fuel(mailbox_run, 3);
}

#[verifier::spinoff_prover]
#[verifier::rlimit(40)]
proof fn lemma_cur_opens(
    config: Config,
    rt: RuntimeView,
    time: u64,
    root: Seq<char>,
    fresh: Seq<(Seq<char>, Seq<u8>)>,
    seen: Seq<(Seq<char>, Seq<u8>)>,
    left: nat,
    steps: nat,
)
    requires
        !rt.mail_open,
        rt.state.jobs.len() < config.agent.max_jobs,
        left > 0,
        steps >= 1,
    ensures
        mailbox_run(
            config,
            time,
            fresh,
            seen,
            root,
            Seq::empty(),
            mail_on(config, RuntimeView { mail_directory: 1, ..rt }, root, left),
            steps,
        ) == mailbox_run(
            config,
            time,
            fresh,
            seen,
            root,
            seen,
            reading(RuntimeView { mail_directory: 2, ..rt }, root, (left - 1) as nat),
            (steps - 1) as nat,
        ),
{
    reveal(mail_seek);
    reveal_strlit("new");
    reveal_strlit("cur");
    assert("new"@[0] != "cur"@[0]);
    reveal_with_fuel(mailbox_run, 2);
}

/// A look through the mailbox finds every message: those in `new` and then those in `cur`, each of
/// them queued with its place and the digest of its bytes; and the next look begins anew. This
/// needs room in the queue and as many looks as the settings allow.
#[verifier::spinoff_prover]
#[verifier::rlimit(40)]
pub proof fn law_mailbox_is_gone_through(
    config: Config,
    rt: RuntimeView,
    time: u64,
    root: Seq<char>,
    fresh: Seq<(Seq<char>, Seq<u8>)>,
    seen: Seq<(Seq<char>, Seq<u8>)>,
    steps: nat,
)
    requires
        config.agent.email.maildir is Some,
        !rt.mail_open,
        rt.mail_directory == 0,
        all_unheard(rt.state.jobs, mail_work(root, fresh) + mail_work(root, seen)),
        rt.state.jobs.len() + fresh.len() + seen.len() < config.agent.max_jobs,
        config.limits.max_emails_per_tick > fresh.len() + seen.len() + 2,
        steps >= 4 * fresh.len() + 4 * seen.len() + 5,
    ensures
        mail_begins(config, rt).need == (SeekNeedView::Root {
            maildir: config.agent.email.maildir->0@,
        }),
        ({
            let last = mailbox_run(
                config,
                time,
                fresh,
                seen,
                root,
                Seq::empty(),
                mail_begins(config, rt),
                steps,
            );
            &&& last.need == SeekNeedView::Finish(Ok(()))
            &&& last.rt == rt.with_jobs(
                rt.state.jobs + new_jobs(mail_work(root, fresh) + mail_work(root, seen), time),
            )
        }),
{
    let first = mail_work(root, fresh);
    let second = mail_work(root, seen);
    lemma_split_unheard(rt.state.jobs, first, second, time);
    let most = config.limits.max_emails_per_tick as nat;
    let begun = RuntimeView { mail_directory: 1, ..rt };
    lemma_new_opens(config, rt, time, root, fresh, seen, steps);
    lemma_directory(
        config,
        begun,
        time,
        fresh,
        seen,
        root,
        fresh,
        (most - 1) as nat,
        (steps - 2) as nat,
    );
    let between = rt.with_jobs(rt.state.jobs + new_jobs(first, time));
    let halfway = RuntimeView { mail_directory: 2, ..between };
    let left = (most - 1 - fresh.len()) as nat;
    let more = (steps - 2 - 4 * fresh.len() - 1) as nat;
    lemma_cur_opens(config, between, time, root, fresh, seen, left, more);
    lemma_directory(
        config,
        halfway,
        time,
        fresh,
        seen,
        root,
        seen,
        (left - 1) as nat,
        (more - 1) as nat,
    );
    assert(rt.state.jobs + new_jobs(first, time) + new_jobs(second, time) =~= rt.state.jobs
        + new_jobs(first + second, time));
}

/// What is no regular file in the mailbox is passed over, a message that was dealt with or waits
/// already is not queued again, and a full queue ends the look where it stands.
pub proof fn law_mailbox_passes_over(
    config: Config,
    rt: RuntimeView,
    time: u64,
    root: Seq<char>,
    left: nat,
    path: Seq<char>,
    bytes: Seq<u8>,
)
    requires
        rt.mail_open,
        left > 0,
    ensures
        ({
            let id = identity("email:"@ + root + ":"@ + digested(bytes));
            let full = rt.state.jobs.len() >= config.agent.max_jobs;
            let odd = seek_step(
                config,
                rt,
                time,
                SeekStageView::MailTaking { root, left },
                SeekEventView::Entry { path, regular: false },
            );
            let read = seek_step(
                config,
                rt,
                time,
                SeekStageView::MailReading { root, left, path },
                SeekEventView::Bytes(bytes),
            );
            let done = seek_step(config, rt, time, read.stage, SeekEventView::Known(true));
            let waits = seek_step(config, rt, time, read.stage, SeekEventView::Known(false));
            &&& read.rt == rt && read.need == SeekNeedView::LookUp("activity-"@ + id + ".json"@)
            &&& odd.rt == rt && done.rt == rt
            &&& full ==> odd.need == SeekNeedView::Finish(Ok(())) && done.need
                == SeekNeedView::Finish(Ok(()))
            &&& !full ==> odd.need == SeekNeedView::NextMail && done.need == SeekNeedView::NextMail
            &&& !unheard(rt.state.jobs, id) ==> waits == done
            &&& unheard(rt.state.jobs, id) && full ==> waits.rt == rt && waits.need
                == SeekNeedView::Finish(Err(FailureView::Refused(ErrorView::QueueFull)))
        }),
{
    reveal(mail_seek);
    lemma_unheard(rt.state.jobs, identity("email:"@ + root + ":"@ + digested(bytes)));
}

// ---------------------------------------------------------------------------
// Papers in the store

/// A paper in the store is queued to be read by a model, under its name, unless that was done
/// before; what is no paper is passed over.
pub proof fn law_paper_is_queued(
    config: Config,
    rt: RuntimeView,
    time: u64,
    left: nat,
    name: Seq<char>,
)
    requires
        rt.state.jobs.len() < config.agent.max_jobs,
        left > 0,
    ensures
        ({
            let id = identity("select:"@ + name);
            let paper = begins(name, "paper-"@) && ends(name, ".json.gz"@);
            let found = seek_step(
                config,
                rt,
                time,
                SeekStageView::PaperTaking { left },
                SeekEventView::Name(name),
            );
            let fresh = seek_step(config, rt, time, found.stage, SeekEventView::Known(false));
            let done = seek_step(config, rt, time, found.stage, SeekEventView::Known(true));
            let next = seek_step(config, fresh.rt, time, fresh.stage, SeekEventView::Done);
            let job = new_job(id, WorkView::Paper { object: name }, time);
            &&& found.rt == rt
            &&& !paper ==> found.need == SeekNeedView::NextPaper
            &&& paper ==> {
                &&& found.need == SeekNeedView::LookUp("activity-"@ + id + ".json"@)
                &&& done.rt == rt && done.need == SeekNeedView::NextPaper
                &&& unheard(rt.state.jobs, id) ==> fresh.rt == rt.with_jobs(
                    rt.state.jobs.push(job),
                ) && fresh.need == SeekNeedView::Save && next.rt == fresh.rt
                &&& unheard(rt.state.jobs, id) && rt.state.jobs.len() + 1 < config.agent.max_jobs
                    ==> next.need == SeekNeedView::NextPaper
                &&& !unheard(rt.state.jobs, id) ==> fresh == done
            }
        }),
{
    reveal(paper_seek);
    lemma_unheard(rt.state.jobs, identity("select:"@ + name));
}

/// Papers are looked for from where the last look ended, or from the beginning of the store, a
/// hundred names at most in one look; at the end of the store the next look begins anew.
pub proof fn law_papers_are_looked_for(config: Config, rt: RuntimeView, time: u64, left: nat)
    requires
        rt.state.jobs.len() < config.agent.max_jobs,
    ensures
        rt.paper_open ==> papers_begin(config, rt).need == SeekNeedView::NextPaper && papers_begin(
            config,
            rt,
        ).stage == (SeekStageView::PaperTaking { left: 99 }),
        !rt.paper_open ==> papers_begin(config, rt).need == SeekNeedView::OpenPapers,
        ({
            let opened = seek_step(
                config,
                rt,
                time,
                SeekStageView::PaperOpening,
                SeekEventView::Done,
            );
            &&& opened.rt == (RuntimeView { paper_open: true, ..rt })
            &&& opened.need == SeekNeedView::NextPaper
            &&& opened.stage == (SeekStageView::PaperTaking { left: 99 })
        }),
        ({
            let end = seek_step(
                config,
                rt,
                time,
                SeekStageView::PaperTaking { left },
                SeekEventView::End,
            );
            &&& end.rt == (RuntimeView { paper_open: false, ..rt })
            &&& end.need == SeekNeedView::Finish(Ok(()))
        }),
{
    reveal(paper_seek);
}

// ---------------------------------------------------------------------------
// Questions on Discord

/// Questions are looked for channel by channel, from the first of the settings, unless Discord is
/// off or wants to be left alone. Of a channel that was never read the newest messages are asked
/// for, of one that is being caught up with those before the oldest that was handled, and of any
/// other the newest.
pub proof fn law_channels_are_read(config: Config, rt: RuntimeView, time: u64)
    requires
        config.agent.discord.channels@.len() > 0,
        rt.state.jobs.len() < config.agent.max_jobs,
    ensures
        ({
            let turn = chat_begins(config, rt, time);
            let channel = config.agent.discord.channels@[0]@;
            let scan = found(rt.state.discord_backfill, channel);
            &&& turn.rt == rt
            &&& !config.agent.discord.enabled || time < rt.state.discord_retry_at ==> turn.need
                == SeekNeedView::Finish(Ok(()))
            &&& config.agent.discord.enabled && time >= rt.state.discord_retry_at ==> turn.need
                == if found(rt.state.discord_cursors, channel) is Some && scan is Some {
                SeekNeedView::Before { channel, id: scan->Some_0.1 }
            } else {
                SeekNeedView::Messages { channel }
            }
        }),
{
}

/// A channel that is read for the first time gives no work: its place is set to the newest message
/// that is there, or before all messages if there is none, and the next channel follows.
pub proof fn law_first_reading(
    config: Config,
    rt: RuntimeView,
    time: u64,
    at: nat,
    list: Seq<MessageView>,
)
    requires
        at < config.agent.discord.channels@.len(),
        newest_received(list, config.agent.discord.channels@[at as int]@) is Ok,
    ensures
        ({
            let channel = config.agent.discord.channels@[at as int]@;
            let turn = seek_step(
                config,
                rt,
                time,
                SeekStageView::ChatStarting { at },
                SeekEventView::Messages(list),
            );
            let next = seek_step(config, turn.rt, time, turn.stage, SeekEventView::Done);
            let place = found(turn.rt.state.discord_cursors, channel);
            &&& turn.need == SeekNeedView::Save
            &&& turn.rt.state.jobs == rt.state.jobs
            &&& turn.rt.state.discord_backfill == rt.state.discord_backfill
            &&& list.len() == 0 ==> place == Some("0"@)
            &&& list.len() > 0 ==> place is Some && (exists|i: int|
                0 <= i < list.len() && (#[trigger] list[i]).id == place->0) && (forall|i: int|
                0 <= i < list.len() ==> rank((#[trigger] list[i]).id)
                    <= rank(place->0))
            &&& forall|other: Seq<char>|
                other != channel ==> #[trigger] found(turn.rt.state.discord_cursors, other)
                    == found(rt.state.discord_cursors, other)
            &&& next.rt == turn.rt
            &&& at + 1 < config.agent.discord.channels@.len() && rt.state.jobs.len()
                < config.agent.max_jobs ==> next.need is Messages || next.need is Before
            &&& at + 1 >= config.agent.discord.channels@.len() ==> next.need
                == SeekNeedView::Finish(Ok(()))
        }),
{
    reveal(chat_seek);
    let channel = config.agent.discord.channels@[at as int]@;
    law_arranged(list, false);
    let sorted = arranged(list, false);
    let turn = seek_step(
        config,
        rt,
        time,
        SeekStageView::ChatStarting { at },
        SeekEventView::Messages(list),
    );
    let id = if sorted.len() > 0 {
        sorted.last().id
    } else {
        "0"@
    };
    law_holding(rt.state.discord_cursors, channel, id, channel);
    assert forall|other: Seq<char>| other != channel implies #[trigger] found(
        turn.rt.state.discord_cursors,
        other,
    ) == found(rt.state.discord_cursors, other) by {
        law_holding(rt.state.discord_cursors, channel, id, other);
    }
    if list.len() > 0 {
        broadcast use vstd::seq_lib::group_to_multiset_ensures;

        assert(sorted.contains(sorted.last()));
        assert(list.to_multiset().count(sorted.last()) > 0);
        assert(list.contains(sorted.last()));
        let k = choose|k: int| 0 <= k < list.len() && list[k] == sorted.last();
        assert(list[k].id == id);
        assert forall|i: int| 0 <= i < list.len() implies rank(
            (#[trigger] list[i]).id,
        ) <= rank(id) by {
            assert(list.contains(list[i]));
            assert(sorted.to_multiset().count(list[i]) > 0);
            assert(sorted.contains(list[i]));
            let n = choose|n: int| 0 <= n < sorted.len() && sorted[n] == list[i];
            if n < sorted.len() - 1 {
                assert(!comes_after(sorted[n], sorted[sorted.len() - 1], false));
            }
        }
    }
}

/// A question of a person that comes after the place of its channel is queued while the user is
/// away, with its channel and all that it says, unless that was done before; and only then is it
/// left behind. Any other message is left behind at once.
pub proof fn law_question_is_queued(
    config: Config,
    rt: RuntimeView,
    time: u64,
    at: nat,
    cursor: Seq<char>,
    high: Seq<char>,
    finished: bool,
    message: MessageView,
    rest: Seq<MessageView>,
)
    requires
        at < config.agent.discord.channels@.len(),
        rt.state.jobs.len() < config.agent.max_jobs,
        snowflake_value(message.id) is Ok,
        snowflake_value(cursor) is Ok,
        snowflake_value(message.id)->Ok_0 > snowflake_value(cursor)->Ok_0,
    ensures
        ({
            let channel = config.agent.discord.channels@[at as int]@;
            let id = identity("discord:"@ + channel + ":"@ + message.id);
            let all = seq![message] + rest;
            let turn = seek_step(
                config,
                rt,
                time,
                SeekStageView::ChatMarked { at, cursor, high, finished, rest: all },
                SeekEventView::Done,
            );
            let fresh = seek_step(config, rt, time, turn.stage, SeekEventView::Known(false));
            let kept = seek_step(config, fresh.rt, time, fresh.stage, SeekEventView::Done);
            let done = seek_step(config, rt, time, turn.stage, SeekEventView::Known(true));
            let job = new_job(id, WorkView::Discord { channel, message }, time);
            let next = SeekStageView::ChatMarked { at, cursor, high, finished, rest };
            if rt.state.away && asks(message, config.agent.discord.bot_id@) {
                &&& turn.rt == rt
                &&& turn.need == SeekNeedView::LookUp("activity-"@ + id + ".json"@)
                &&& leaves(rt, done, channel, high, message.id, next)
                &&& unheard(rt.state.jobs, id) ==> fresh.rt == rt.with_jobs(
                    rt.state.jobs.push(job),
                ) && fresh.need == SeekNeedView::Save && leaves(
                    fresh.rt,
                    kept,
                    channel,
                    high,
                    message.id,
                    next,
                )
                &&& !unheard(rt.state.jobs, id) ==> fresh == done
            } else {
                leaves(rt, turn, channel, high, message.id, next)
            }
        }),
{
    reveal(chat_seek);
    let channel = config.agent.discord.channels@[at as int]@;
    let id = identity("discord:"@ + channel + ":"@ + message.id);
    lemma_unheard(rt.state.jobs, id);
    law_holding(rt.state.discord_backfill, channel, (high, message.id), channel);
    assert((seq![message] + rest).drop_first() =~= rest);
    let held = holding(rt.state.discord_backfill, channel, (high, message.id));
    assert forall|other: Seq<char>| other != channel implies #[trigger] found(held, other) == found(
        rt.state.discord_backfill,
        other,
    ) by {
        law_holding(rt.state.discord_backfill, channel, (high, message.id), other);
    }
}

/// A message is left behind: the place where catching up goes on is set to it, and kept; the
/// messages that came after it are next, and nothing else changes.
pub open spec fn leaves(
    before: RuntimeView,
    turn: SeekTurn,
    channel: Seq<char>,
    high: Seq<char>,
    id: Seq<char>,
    next: SeekStageView,
) -> bool {
    &&& turn.need == SeekNeedView::Save
    &&& turn.stage == next
    &&& turn.rt == before.with_state(
        StateView { discord_backfill: turn.rt.state.discord_backfill, ..before.state },
    )
    &&& found(turn.rt.state.discord_backfill, channel) == Some((high, id))
    &&& forall|other: Seq<char>|
        other != channel ==> #[trigger] found(turn.rt.state.discord_backfill, other) == found(
            before.state.discord_backfill,
            other,
        )
}

/// A channel is done with when a message is reached that was read before, or when no more came: its
/// place is the newest message of the round, nothing is left to catch up with, and the next channel
/// follows.
pub proof fn law_channel_is_done(
    config: Config,
    rt: RuntimeView,
    time: u64,
    at: nat,
    cursor: Seq<char>,
    high: Seq<char>,
    rest: Seq<MessageView>,
)
    requires
        at < config.agent.discord.channels@.len(),
        rest.len() > 0 ==> snowflake_value(rest[0].id) is Ok && snowflake_value(cursor) is Ok
            && snowflake_value(rest[0].id)->Ok_0 <= snowflake_value(cursor)->Ok_0,
    ensures
        ({
            let channel = config.agent.discord.channels@[at as int]@;
            let turn = seek_step(
                config,
                rt,
                time,
                SeekStageView::ChatMarked { at, cursor, high, finished: true, rest },
                SeekEventView::Done,
            );
            let next = seek_step(config, turn.rt, time, turn.stage, SeekEventView::Done);
            &&& turn.need == SeekNeedView::Save
            &&& found(turn.rt.state.discord_cursors, channel) == Some(high)
            &&& found(turn.rt.state.discord_backfill, channel) is None
            &&& forall|other: Seq<char>|
                other != channel ==> #[trigger] found(turn.rt.state.discord_cursors, other)
                    == found(rt.state.discord_cursors, other)
            &&& forall|other: Seq<char>|
                other != channel ==> #[trigger] found(turn.rt.state.discord_backfill, other)
                    == found(rt.state.discord_backfill, other)
            &&& turn.rt.state.jobs == rt.state.jobs
            &&& next.rt == turn.rt
            &&& at + 1 < config.agent.discord.channels@.len() && rt.state.jobs.len()
                < config.agent.max_jobs ==> next.need is Messages || next.need is Before
            &&& at + 1 >= config.agent.discord.channels@.len() ==> next.need
                == SeekNeedView::Finish(Ok(()))
        }),
{
    reveal(chat_seek);
    let channel = config.agent.discord.channels@[at as int]@;
    law_holding(rt.state.discord_cursors, channel, high, channel);
    law_without(rt.state.discord_backfill, channel, channel);
    let held = holding(rt.state.discord_cursors, channel, high);
    assert forall|other: Seq<char>| other != channel implies #[trigger] found(held, other) == found(
        rt.state.discord_cursors,
        other,
    ) by {
        law_holding(rt.state.discord_cursors, channel, high, other);
    }
    let less = without(rt.state.discord_backfill, channel);
    assert forall|other: Seq<char>| other != channel implies #[trigger] found(less, other) == found(
        rt.state.discord_backfill,
        other,
    ) by {
        law_without(rt.state.discord_backfill, channel, other);
    }
}

/// The messages of a channel are gone through from the newest, and all of them: the round ends at
/// the newest that came, or where an earlier round began, and it is the last page if fewer than a
/// hundred came. A page with a message that has no number, or on the first page one of another
/// channel, is refused, and nothing changes.
pub proof fn law_page_of_messages(
    config: Config,
    rt: RuntimeView,
    time: u64,
    at: nat,
    cursor: Seq<char>,
    newest: Option<Seq<char>>,
    list: Seq<MessageView>,
)
    requires
        at < config.agent.discord.channels@.len(),
    ensures
        ({
            let channel = config.agent.discord.channels@[at as int]@;
            let fits = forall|i: int|
                0 <= i < list.len() ==> snowflake_value((#[trigger] list[i]).id) is Ok && (newest
                    is Some || list[i].channel_id.len() == 0 || list[i].channel_id == channel);
            let turn = seek_step(
                config,
                rt,
                time,
                SeekStageView::ChatScanning { at, cursor, newest },
                SeekEventView::Messages(list),
            );
            &&& !fits ==> turn.rt == rt && turn.need is Finish && turn.need->Finish_0 is Err
            &&& fits ==> exists|all: Seq<MessageView>|
                {
                    let high = match newest {
                        Some(high) => high,
                        None => if all.len() > 0 {
                            all[0].id
                        } else {
                            cursor
                        },
                    };
                    &&& #[trigger] all.to_multiset() == list.to_multiset()
                    &&& in_order(all, true)
                    &&& turn == seek_step(
                        config,
                        rt,
                        time,
                        SeekStageView::ChatMarked {
                            at,
                            cursor,
                            high,
                            finished: list.len() < 100,
                            rest: all,
                        },
                        SeekEventView::Done,
                    )
                }
        }),
{
    reveal(chat_seek);
    let channel = config.agent.discord.channels@[at as int]@;
    law_received(list, channel);
    law_arranged(list, true);
    law_arranged(list, false);
    let given = if newest is Some {
        list
    } else {
        arranged(list, false)
    };
    law_arranged(given, true);
    let all = arranged(given, true);
    assert(all.to_multiset() == list.to_multiset());
    assert(all.len() == list.len()) by {
        broadcast use vstd::seq_lib::group_to_multiset_ensures;

        assert(all.to_multiset().len() == all.len());
        assert(list.to_multiset().len() == list.len());
    }
}

/// While the queue is full nothing is looked for: neither papers nor messages are asked for, and
/// what was found waits where it is.
pub proof fn law_full_queue(config: Config, rt: RuntimeView, time: u64, at: nat, left: nat)
    requires
        rt.state.jobs.len() >= config.agent.max_jobs,
    ensures
        ({
            let papers = seek_step(
                config,
                rt,
                time,
                SeekStageView::PaperSaving { left },
                SeekEventView::Done,
            );
            let chat = seek_step(
                config,
                rt,
                time,
                SeekStageView::ChatClosing { at },
                SeekEventView::Done,
            );
            let begun = chat_begins(config, rt, time);
            &&& papers.need == SeekNeedView::Finish(Ok(())) && papers.rt == rt
            &&& chat.need == SeekNeedView::Finish(Ok(())) && chat.rt == rt
            &&& begun.need == SeekNeedView::Finish(Ok(())) && begun.rt == rt
        }),
{
    reveal(paper_seek);
    reveal(chat_seek);
}

/// What fails while work is looked for ends the look with it, and nothing changes.
pub proof fn law_failed_look(
    config: Config,
    rt: RuntimeView,
    time: u64,
    stage: SeekStageView,
    failure: FailureView,
)
    ensures
        ({
            let turn = seek_step(config, rt, time, stage, SeekEventView::Failed(failure));
            turn.need == SeekNeedView::Finish(Err(failure)) && turn.rt == rt
        }),
{
    reveal(due_progress);
    reveal(mail_seek);
    reveal(paper_seek);
    reveal(chat_seek);
}

} // verus!
