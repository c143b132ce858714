//! What holds of the queue whatever is asked of it, and in whatever order.

use vstd::prelude::*;

use crate::clock::Clock;
use crate::downloader::engine;
use crate::listing;
use crate::queue::job;
use crate::queue::job::{JobControl, JobId};
use crate::queue::manager;
use crate::queue::manager::{OutcomeView, QueueView};
use crate::text;

verus! {

impl QueueView {
    /// No two jobs have the same number.
    pub open spec fn distinct(self) -> bool {
        forall|i: int, j: int|
            0 <= i < j < self.jobs.len() ==> (#[trigger] self.jobs[i]).id != (
            #[trigger] self.jobs[j]).id
    }
}

/// How many of the jobs wait.
pub open spec fn waiting_count(jobs: Seq<job::JobView>) -> nat
    decreases jobs.len(),
{
    if jobs.len() == 0 {
        0
    } else {
        waiting_count(jobs.drop_last()) + if jobs.last().status is Pending {
            1nat
        } else {
            0nat
        }
    }
}

/// Where the numbers are distinct, a controlled job is the one that its number finds.
pub proof fn law_number_finds_the_controlled_job(q: QueueView, id: JobId)
    requires
        q.wf(),
        q.distinct(),
        q.controlled(id) is Some,
    ensures
        q.position(id) == q.controlled(id),
{
    manager::lemma_position_from(q.jobs, id, 0);
    let at = q.index[id] as int;
    assert(q.jobs[at].id == id);
    let found = q.position(id)->0;
    assert(q.jobs[found].id == id);
}

/// The next number is unused. The job that is added under it stands at the end of the queue and
/// is controlled by it, and the numbers stay distinct.
pub proof fn law_added_job_has_a_fresh_number(q: QueueView, new: job::JobView)
    requires
        q.wf(),
        q.distinct(),
        q.jobs.len() < usize::MAX,
        q.next_id < u64::MAX,
        new.id == q.next_id,
    ensures
        forall|i: int| 0 <= i < q.jobs.len() ==> (#[trigger] q.jobs[i]).id != new.id,
        q.added(new).distinct(),
        q.added(new).controlled(new.id) == Some(q.jobs.len() as int),
        q.added(new).position(new.id) == Some(q.jobs.len() as int),
        q.added(new).next_id > new.id,
{
    let after = q.added(new);
    manager::lemma_position_from(after.jobs, new.id, 0);
    assert(after.jobs[q.jobs.len() as int] == new);
    assert forall|i: int| 0 <= i < q.jobs.len() implies (#[trigger] after.jobs[i]).id != new.id by {
        assert(after.jobs[i] == q.jobs[i]);
    }
}

/// Something that happens to the queue, other than a change of its order.
pub enum Step {
    Add(job::JobView),
    Signal { id: JobId, control: JobControl },
    Cancel { id: JobId },
    Resume { id: JobId },
    Launch { now: i64 },
    Begin { id: JobId, control: JobControl, now: i64 },
    Finish { id: JobId, outcome: OutcomeView, now: i64 },
    Abandon,
    Progress { position: int, downloaded: u64, total_size: u64 },
    Chunks { position: int, chunks_done: u8 },
    Sample { now: i64 },
}

/// The queue after a step.
pub open spec fn stepped(q: QueueView, step: Step) -> QueueView {
    match step {
        Step::Add(new) => q.added(new),
        Step::Signal { id, control } => q.signalled(id, control),
        Step::Cancel { id } => q.cancelled(id),
        Step::Resume { id } => q.resumed(id),
        Step::Launch { now } => q.launched(now),
        Step::Begin { id, control, now } => q.begun(id, control, now),
        Step::Finish { id, outcome, now } => q.finished(id, outcome, now),
        Step::Abandon => q.freed(),
        Step::Progress { position, downloaded, total_size } => if 0 <= position < q.jobs.len() {
            q.replaced(
                position,
                job::JobView { downloaded, live_total: total_size, ..q.jobs[position] },
            )
        } else {
            q
        },
        Step::Chunks { position, chunks_done } => if 0 <= position < q.jobs.len() {
            q.replaced(position, job::JobView { chunks_done, ..q.jobs[position] })
        } else {
            q
        },
        Step::Sample { now } => q.sampled(now),
    }
}

/// The queue after all of `steps`, in order.
pub open spec fn run(q: QueueView, steps: Seq<Step>) -> QueueView
    decreases steps.len(),
{
    if steps.len() == 0 {
        q
    } else {
        stepped(run(q, steps.drop_last()), steps.last())
    }
}

/// Whether no step adds a job under the number `id` or under the last number there is.
pub open spec fn adds_others(steps: Seq<Step>, id: JobId) -> bool {
    forall|i: int|
        0 <= i < steps.len() ==> (#[trigger] steps[i] matches Step::Add(new) ==> new.id != id
            && new.id < u64::MAX)
}

/// Whether no step ends a transfer of the job `id`, or finds it cancelled where it would begin.
pub open spec fn ends_others(steps: Seq<Step>, id: JobId) -> bool {
    forall|i: int|
        0 <= i < steps.len() ==> match #[trigger] steps[i] {
            Step::Begin { id: other, control, .. } => other != id || manager::begins(control),
            Step::Finish { id: other, .. } => other != id,
            _ => true,
        }
}

/// What one step keeps: the soundness of the queue, and of each of its jobs the number, the URL
/// and the path.
proof fn lemma_step(q: QueueView, step: Step)
    requires
        q.wf(),
        q.jobs.len() < usize::MAX,
        step matches Step::Add(new) ==> new.id < u64::MAX,
    ensures
        stepped(q, step).wf(),
        q.jobs.len() <= stepped(q, step).jobs.len() <= q.jobs.len() + 1,
        forall|i: int|
            0 <= i < q.jobs.len() ==> (#[trigger] stepped(q, step).jobs[i]).id == q.jobs[i].id
                && stepped(q, step).jobs[i].url == q.jobs[i].url
                && stepped(q, step).jobs[i].output_path == q.jobs[i].output_path,
{
    manager::lemma_waiting_from(q.jobs, 0);
    match step {
        Step::Begin { id, .. } => {
            manager::lemma_position_from(q.jobs, id, 0);
        },
        Step::Finish { id, outcome, now } => {
            manager::lemma_position_from(q.jobs, id, 0);
            manager::lemma_position_from(
                q.freed().with_status(id, outcome.status(), now).jobs,
                id,
                0,
            );
        },
        _ => {},
    }
}

/// What one step keeps of a job that was cancelled.
proof fn lemma_step_keeps_cancelled(q: QueueView, step: Step, at: int)
    requires
        q.wf(),
        q.jobs.len() < usize::MAX,
        step matches Step::Add(new) ==> new.id < u64::MAX && new.id != q.jobs[at].id,
        0 <= at < q.jobs.len(),
        q.jobs[at].control is Cancel,
        q.controlled(q.jobs[at].id) is None,
    ensures
        stepped(q, step).jobs[at].control is Cancel,
        stepped(q, step).controlled(q.jobs[at].id) is None,
{
    manager::lemma_waiting_from(q.jobs, 0);
    match step {
        Step::Begin { id, .. } => {
            manager::lemma_position_from(q.jobs, id, 0);
        },
        Step::Finish { id, outcome, now } => {
            manager::lemma_position_from(q.jobs, id, 0);
            manager::lemma_position_from(
                q.freed().with_status(id, outcome.status(), now).jobs,
                id,
                0,
            );
        },
        _ => {},
    }
}

/// What one step keeps of a job that has come to an end.
proof fn lemma_step_keeps_end(q: QueueView, step: Step, at: int)
    requires
        q.wf(),
        0 <= at < q.jobs.len(),
        q.jobs[at].status.terminal(),
        match step {
            Step::Begin { id, control, .. } => id != q.jobs[at].id || manager::begins(control),
            Step::Finish { id, .. } => id != q.jobs[at].id,
            _ => true,
        },
    ensures
        stepped(q, step).jobs[at].status == q.jobs[at].status,
{
    manager::lemma_waiting_from(q.jobs, 0);
    match step {
        Step::Begin { id, .. } => {
            manager::lemma_position_from(q.jobs, id, 0);
        },
        Step::Finish { id, outcome, now } => {
            manager::lemma_position_from(q.jobs, id, 0);
            manager::lemma_position_from(
                q.freed().with_status(id, outcome.status(), now).jobs,
                id,
                0,
            );
        },
        _ => {},
    }
}

/// Whatever steps follow, the queue stays sound and keeps every job: its place, its number, its
/// URL and its path.
pub proof fn law_every_job_stays(q: QueueView, steps: Seq<Step>)
    requires
        q.wf(),
        q.jobs.len() + steps.len() <= usize::MAX,
        adds_others(steps, u64::MAX),
    ensures
        run(q, steps).wf(),
        q.jobs.len() <= run(q, steps).jobs.len() <= q.jobs.len() + steps.len(),
        forall|i: int|
            0 <= i < q.jobs.len() ==> (#[trigger] run(q, steps).jobs[i]).id == q.jobs[i].id
                && run(q, steps).jobs[i].url == q.jobs[i].url && run(q, steps).jobs[i].output_path
                == q.jobs[i].output_path,
    decreases steps.len(),
{
    if steps.len() > 0 {
        lemma_prefix(steps, u64::MAX);
        law_every_job_stays(q, steps.drop_last());
        lemma_step(run(q, steps.drop_last()), steps.last());
    }
}

proof fn lemma_prefix(steps: Seq<Step>, id: JobId)
    requires
        steps.len() > 0,
    ensures
        adds_others(steps, id) ==> adds_others(steps.drop_last(), id) && (
        steps.last() matches Step::Add(new) ==> new.id != id && new.id < u64::MAX),
        ends_others(steps, id) ==> ends_others(steps.drop_last(), id),
{
    assert(steps[steps.len() - 1] == steps.last());
    assert forall|i: int| 0 <= i < steps.drop_last().len() implies #[trigger] steps.drop_last()[i]
        == steps[i] by {}
}

/// A job that has come to an end is never taken up again, whatever steps follow; only the
/// end of a transfer under its own number could change its status.
pub proof fn law_ended_jobs_stay_ended(q: QueueView, steps: Seq<Step>, at: int)
    requires
        q.wf(),
        q.jobs.len() + steps.len() <= usize::MAX,
        adds_others(steps, u64::MAX),
        0 <= at < q.jobs.len(),
        q.jobs[at].status.terminal(),
        ends_others(steps, q.jobs[at].id),
    ensures
        run(q, steps).jobs[at].status == q.jobs[at].status,
    decreases steps.len(),
{
    if steps.len() > 0 {
        lemma_prefix(steps, u64::MAX);
        lemma_prefix(steps, q.jobs[at].id);
        law_ended_jobs_stay_ended(q, steps.drop_last(), at);
        law_every_job_stays(q, steps.drop_last());
        assert(steps[steps.len() - 1] == steps.last());
        lemma_step_keeps_end(run(q, steps.drop_last()), steps.last(), at);
    }
}

/// A cancelled job that was not paused keeps the signal to cancel, whatever steps follow, so
/// that its transfer does not begin.
pub proof fn law_cancelled_job_never_transfers(q: QueueView, id: JobId, at: int, steps: Seq<Step>)
    requires
        q.wf(),
        q.jobs.len() + steps.len() <= usize::MAX,
        q.controlled(id) == Some(at),
        !(q.jobs[at].status is Paused),
        adds_others(steps, id),
    ensures
        !manager::begins(run(q.cancelled(id), steps).jobs[at].control),
        run(q.cancelled(id), steps).controlled(id) is None,
    decreases steps.len(),
{
    let c = q.cancelled(id);
    assert(c.jobs[at].id == id);
    assert(c.wf());
    if steps.len() > 0 {
        lemma_prefix(steps, id);
        law_cancelled_job_never_transfers(q, id, at, steps.drop_last());
        assert(adds_others(steps.drop_last(), u64::MAX));
        law_every_job_stays(c, steps.drop_last());
        lemma_step_keeps_cancelled(run(c, steps.drop_last()), steps.last(), at);
    }
}

/// At every moment at most as many transfers run as may, whatever steps follow.
pub proof fn law_transfers_stay_within_the_limit(q: QueueView, steps: Seq<Step>)
    requires
        q.running <= q.max_concurrent,
    ensures
        run(q, steps).running <= run(q, steps).max_concurrent,
        run(q, steps).max_concurrent == q.max_concurrent,
    decreases steps.len(),
{
    if steps.len() > 0 {
        law_transfers_stay_within_the_limit(q, steps.drop_last());
    }
}

/// A transfer that begins holds one slot more, and its end, whatever way, gives the slot back: then
/// another one may begin. A job that is found to be cancelled takes none.
pub proof fn law_every_end_frees_the_slot(
    q: QueueView,
    id: JobId,
    control: JobControl,
    outcome: OutcomeView,
    now: i64,
)
    ensures
        manager::begins(control) && q.slot_free() ==> q.begun(id, control, now).running
            == q.running + 1,
        !manager::begins(control) ==> q.begun(id, control, now).running == q.running,
        q.running > 0 ==> q.finished(id, outcome, now).running == q.running - 1,
        q.running > 0 ==> q.freed().running == q.running - 1,
        0 < q.running <= q.max_concurrent ==> q.finished(id, outcome, now).slot_free(),
{
}

/// Once cancelled, a number is out of control: whatever is asked for it leaves the queue as it is.
pub proof fn law_cancel_is_final(q: QueueView, id: JobId, signal: JobControl)
    requires
        q.wf(),
    ensures
        q.cancelled(id).controlled(id) is None,
        q.cancelled(id).signalled(id, signal) == q.cancelled(id),
        q.cancelled(id).cancelled(id) == q.cancelled(id),
        q.cancelled(id).resumed(id) == q.cancelled(id),
        q.cancelled(id).resumable(id) is None,
{
}

/// A cancelled job that was paused has failed at once.
pub proof fn law_cancelled_paused_job_has_failed(q: QueueView, id: JobId, at: int)
    requires
        q.wf(),
        q.controlled(id) == Some(at),
        q.jobs[at].status is Paused,
    ensures
        q.cancelled(id).jobs[at].status == job::StatusView::Failed("Cancelled"@),
{
}

/// A job whose transfer stopped for a pause can be taken up again, and is then as it was before,
/// but running and under the signal to run.
pub proof fn law_paused_job_resumes(
    q: QueueView,
    id: JobId,
    at: int,
    message: Seq<char>,
    now: i64,
)
    requires
        q.wf(),
        q.distinct(),
        q.controlled(id) == Some(at),
        text::has_text(message, "Paused"@),
    ensures
        ({
            let stopped = q.finished(id, OutcomeView::Stopped { message }, now);
            &&& stopped.jobs[at].status is Paused
            &&& stopped.jobs[at].ended_at == Some(now)
            &&& stopped.resumable(id) == Some(at)
            &&& manager::launch_of(stopped.jobs[at], at) == manager::launch_of(q.jobs[at], at)
            &&& stopped.resumed(id) == q.freed().replaced(
                at,
                job::JobView {
                    control: JobControl::Run,
                    status: job::StatusView::Active,
                    ended_at: None,
                    ..q.jobs[at]
                },
            )
        }),
{
    law_number_finds_the_controlled_job(q, id);
    let stopped = q.finished(id, OutcomeView::Stopped { message }, now);
    assert(stopped.resumed(id).jobs =~= q.jobs.update(
        at,
        job::JobView {
            control: JobControl::Run,
            status: job::StatusView::Active,
            ended_at: None,
            ..q.jobs[at]
        },
    ));
}

/// A transfer that stops for a signal leaves its job paused or cancelled, as the signal says.
pub proof fn law_stop_messages_tell_the_signal(step: engine::StreamStep)
    ensures
        engine::stop_message(step) matches Some(message) ==> (OutcomeView::Stopped {
            message,
        }).status() == (if step is Cancel {
            job::StatusView::Failed("Cancelled"@)
        } else {
            job::StatusView::Paused
        }),
{
    reveal_strlit("Paused");
    reveal_strlit("Cancelled");
    assert("Paused"@[0] == 'P');
    assert("Cancelled"@ =~= seq!['C', 'a', 'n', 'c', 'e', 'l', 'l', 'e', 'd']);
    assert forall|at: int| !#[trigger] text::matches_at("Cancelled"@, "Paused"@, at) by {
        if text::matches_at("Cancelled"@, "Paused"@, at) {
            assert("Cancelled"@.subrange(at, at + "Paused"@.len())[0] == 'P');
        }
    }
    assert("Paused"@.subrange(0, "Paused"@.len() as int) =~= "Paused"@);
    assert(text::matches_at("Paused"@, "Paused"@, 0));
    assert("Cancelled"@.subrange(0, "Cancelled"@.len() as int) =~= "Cancelled"@);
    assert(text::matches_at("Cancelled"@, "Cancelled"@, 0));
}

/// A job whose transfer completed is done, has its size, and is out of control.
pub proof fn law_completed_job_is_done(
    q: QueueView,
    id: JobId,
    at: int,
    downloaded: u64,
    total_size: u64,
    now: i64,
)
    requires
        q.wf(),
        q.position(id) == Some(at),
    ensures
        ({
            let done = q.finished(id, OutcomeView::Completed { downloaded, total_size }, now);
            &&& done.jobs[at].status is Done
            &&& done.jobs[at].live_total == total_size
            &&& done.jobs[at].ended_at == Some(now)
            &&& done.controlled(id) is None
        }),
{
    manager::lemma_position_from(q.jobs, id, 0);
    let after = q.with_status(id, job::StatusView::Done, now);
    manager::lemma_position_from(after.jobs, id, 0);
    let found = after.position(id)->0;
    assert(after.jobs[at].id == id);
    assert forall|j: int| 0 <= j < at implies (#[trigger] after.jobs[j]).id != id by {
        assert(after.jobs[j] == q.jobs[j]);
    }
}

proof fn lemma_count_after_update(jobs: Seq<job::JobView>, at: int, new: job::JobView)
    requires
        0 <= at < jobs.len(),
        jobs[at].status is Pending,
        !(new.status is Pending),
    ensures
        waiting_count(jobs.update(at, new)) + 1 == waiting_count(jobs),
    decreases jobs.len(),
{
    let after = jobs.update(at, new);
    if at < jobs.len() - 1 {
        lemma_count_after_update(jobs.drop_last(), at, new);
        assert(after.drop_last() =~= jobs.drop_last().update(at, new));
    } else {
        assert(after.drop_last() =~= jobs.drop_last());
    }
}

proof fn lemma_none_waits(jobs: Seq<job::JobView>)
    requires
        forall|j: int| 0 <= j < jobs.len() ==> !((#[trigger] jobs[j]).status is Pending),
    ensures
        waiting_count(jobs) == 0,
    decreases jobs.len(),
{
    if jobs.len() > 0 {
        assert forall|j: int| 0 <= j < jobs.len() - 1 implies !((#[trigger] jobs.drop_last()[j]).status
            is Pending) by {
            assert(jobs.drop_last()[j] == jobs[j]);
        }
        lemma_none_waits(jobs.drop_last());
        assert(!(jobs[jobs.len() - 1].status is Pending));
    }
}

/// Every launch takes one job out of those that wait, the one longest in the queue, and there is
/// none to launch only when no job waits. So the run loop ends, with every waiting job taken up.
pub proof fn law_launches_exhaust_the_queue(q: QueueView, now: i64)
    ensures
        match q.waiting() {
            Some(at) => {
                &&& 0 <= at < q.jobs.len()
                &&& q.jobs[at].status is Pending
                &&& forall|i: int| 0 <= i < at ==> !((#[trigger] q.jobs[i]).status is Pending)
                &&& q.launched(now).jobs[at].status is Active
                &&& waiting_count(q.launched(now).jobs) + 1 == waiting_count(q.jobs)
            },
            None => waiting_count(q.jobs) == 0,
        },
{
    manager::lemma_waiting_from(q.jobs, 0);
    match q.waiting() {
        Some(at) => {
            lemma_count_after_update(q.jobs, at, q.launched(now).jobs[at]);
        },
        None => {
            lemma_none_waits(q.jobs);
        },
    }
}

/// Moving a job up exchanges it with the one before it, and moving that one up undoes it.
pub proof fn law_moving_up_is_undone(q: QueueView, id: JobId, at: int)
    requires
        q.distinct(),
        q.position(id) == Some(at),
        at > 0,
    ensures
        q.moved_up(id).position(id) == Some(at - 1),
        q.moved_up(id).jobs.to_multiset() == q.jobs.to_multiset(),
        q.moved_up(id).moved_up(q.jobs[at - 1].id).jobs == q.jobs,
{
    broadcast use vstd::multiset::group_multiset_axioms, vstd::seq_lib::group_to_multiset_ensures;

    manager::lemma_position_from(q.jobs, id, 0);
    let other = q.jobs[at - 1].id;
    let up = q.moved_up(id);
    assert(up.jobs[at - 1] == q.jobs[at] && up.jobs[at] == q.jobs[at - 1]);
    assert(up.distinct()) by {
        assert forall|i: int, j: int| 0 <= i < j < up.jobs.len() implies (
        #[trigger] up.jobs[i]).id != (#[trigger] up.jobs[j]).id by {
            let oi = if i == at {
                at - 1
            } else if i == at - 1 {
                at
            } else {
                i
            };
            let oj = if j == at {
                at - 1
            } else if j == at - 1 {
                at
            } else {
                j
            };
            assert(up.jobs[i] == q.jobs[oi] && up.jobs[j] == q.jobs[oj]);
        }
    }
    manager::lemma_position_from(up.jobs, id, 0);
    manager::lemma_position_from(up.jobs, other, 0);
    assert(up.position(id) == Some(at - 1));
    assert(up.position(other) == Some(at));
    assert(up.moved_up(other).jobs =~= q.jobs);
    let middle = q.jobs.update(at - 1, q.jobs[at]);
    vstd::seq_lib::to_multiset_update(q.jobs, at - 1, q.jobs[at]);
    vstd::seq_lib::to_multiset_update(middle, at, q.jobs[at - 1]);
    assert(q.jobs.to_multiset().contains(q.jobs[at - 1]));
    assert(up.jobs.to_multiset() =~= q.jobs.to_multiset());
}

/// A speed sample spreads the bytes since the last sample over the whole seconds since then. Within
/// the first second nothing changes, and a job that has not advanced keeps its speed.
pub proof fn law_speed_is_bytes_per_second(j: job::JobView, now: i64)
    ensures
        ({
            let after = j.sampled(now);
            let secs = (now - j.last_sample_time) / 1_000_000_000;
            let bytes = j.downloaded - j.last_downloaded;
            &&& secs >= 1 && bytes > 0 ==> after.cached_speed * secs <= bytes && bytes < (
            after.cached_speed + 1) * secs
            &&& secs >= 1 && bytes <= 0 ==> after.cached_speed == j.cached_speed
            &&& secs >= 1 ==> after.last_downloaded == j.downloaded && after.last_sample_time == now
            &&& secs < 1 ==> after == j
            &&& after == (job::JobView {
                cached_speed: after.cached_speed,
                last_downloaded: after.last_downloaded,
                last_sample_time: after.last_sample_time,
                ..j
            })
        }),
{
    let secs = (now - j.last_sample_time) / 1_000_000_000;
    let bytes = j.downloaded - j.last_downloaded;
    if secs >= 1 && bytes > 0 {
        let speed = bytes / secs;
        vstd::arithmetic::div_mod::lemma_fundamental_div_mod(bytes, secs);
        assert(0 <= speed <= bytes) by (nonlinear_arith)
            requires
                speed == bytes / secs,
                secs >= 1,
                bytes > 0,
        ;
        assert(0 <= bytes % secs < secs) by (nonlinear_arith)
            requires
                secs >= 1,
        ;
        assert(speed * secs == secs * speed) by (nonlinear_arith);
        assert((speed + 1) * secs == speed * secs + secs) by (nonlinear_arith);
    }
}

/// A new status changes nothing else of a job but the moment of its end, which is noted exactly where
/// it no longer runs.
pub proof fn law_status_change_notes_the_end(j: job::JobView, status: job::StatusView, now: i64)
    ensures
        ({
            let after = j.with_status(status, now);
            &&& after.status == status
            &&& status is Paused || status is Done || status is Failed ==> after.ended_at == Some(
                now,
            )
            &&& status is Pending || status is Active ==> after.ended_at == j.ended_at
            &&& after == (job::JobView { status: after.status, ended_at: after.ended_at, ..j })
        }),
{
}

/// A snapshot tells of a job what it holds; a speed only while it runs, and the seconds of its
/// moments.
pub proof fn law_snapshots_tell_the_job(j: job::JobView, clock: Clock)
    ensures
        ({
            let s = manager::summary_of(j, clock);
            &&& s.id == j.id && s.url == j.url && s.output_path == j.output_path
            &&& s.status == j.status.text()
            &&& s.total_size == j.live_total && s.downloaded == j.downloaded
            &&& s.chunks_total == j.connections && s.chunks_done == j.chunks_done
            &&& s.speed_bps is Some <==> j.status is Active && j.cached_speed > 0
            &&& s.speed_bps is Some ==> s.speed_bps->0 == j.cached_speed
            &&& s.started_at is Some <==> j.started_at is Some
            &&& s.ended_at is Some <==> j.ended_at is Some
            &&& s.started_at is Some ==> s.started_at->0 == clock.epoch(j.started_at->0)
            &&& s.ended_at is Some ==> s.ended_at->0 == clock.epoch(j.ended_at->0)
        }),
{
}

/// A job that is taken up runs from then on, if it has not been started before; nothing else of it
/// changes, nor any other job.
pub proof fn law_launched_jobs_run(q: QueueView, now: i64, at: int)
    requires
        q.waiting() == Some(at),
    ensures
        ({
            let after = q.launched(now);
            let j = q.jobs[at];
            &&& after.jobs == q.jobs.update(
                at,
                job::JobView {
                    status: job::StatusView::Active,
                    ended_at: None,
                    started_at: if j.started_at is Some {
                        j.started_at
                    } else {
                        Some(now)
                    },
                    ..j
                },
            )
            &&& after == (QueueView { jobs: after.jobs, ..q })
        }),
{
    manager::lemma_waiting_from(q.jobs, 0);
}

/// What a transfer is given is what its job was added with.
pub proof fn law_launches_carry_the_job(j: job::JobView, at: int)
    ensures
        ({
            let launch = manager::launch_of(j, at);
            launch.position == at && launch.id == j.id && launch.url == j.url && launch.output_path
                == j.output_path && launch.connections == j.connections && launch.headers
                == j.headers
        }),
{
}

/// An added job stands last and is controlled by its number; nothing else changes but the next
/// number, which lies above all that have been given out.
pub proof fn law_added_jobs_stand_last(q: QueueView, new: job::JobView, other: JobId)
    requires
        q.jobs.len() < usize::MAX,
        new.id < u64::MAX,
        other != new.id,
    ensures
        ({
            let after = q.added(new);
            &&& after.jobs == q.jobs.push(new)
            &&& after.controlled(new.id) == Some(q.jobs.len() as int)
            &&& after.controlled(other) == q.controlled(other)
            &&& after.next_id >= q.next_id && after.next_id > new.id
            &&& after.next_id == q.next_id || after.next_id == new.id + 1
            &&& after.running == q.running && after.max_concurrent == q.max_concurrent
        }),
{
}

/// A job that is added anew waits under the signal to run, and nothing of it is downloaded.
pub proof fn law_new_jobs_wait(
    id: JobId,
    url: Seq<char>,
    path: Seq<char>,
    connections: u8,
    headers: Seq<(Seq<char>, Seq<char>)>,
    now: i64,
)
    ensures
        ({
            let j = job::queued(id, url, path, connections, headers, now);
            &&& j.id == id && j.url == url && j.output_path == path
            &&& j.connections == connections && j.headers == headers
            &&& j.status is Pending && j.control is Run
            &&& j.downloaded == 0 && j.total_size == 0 && j.live_total == 0 && j.chunks_done == 0
            &&& j.cached_speed == 0 && j.last_downloaded == 0 && j.last_sample_time == now
            &&& j.started_at is None && j.ended_at is None
        }),
{
}

/// A job that is added with a state has that state, and is otherwise as a new one; a paused one is
/// under the signal to pause.
pub proof fn law_restored_state_is_kept(
    fresh: job::JobView,
    status: Option<job::StatusView>,
    total_size: u64,
    downloaded: u64,
    started_at: Option<i64>,
    ended_at: Option<i64>,
)
    ensures
        ({
            let j = manager::restored(
                fresh,
                status,
                total_size,
                downloaded,
                started_at,
                ended_at,
            );
            &&& j.total_size == total_size && j.live_total == total_size
            &&& j.downloaded == downloaded
            &&& j.started_at == started_at && j.ended_at == ended_at
            &&& status is Some ==> j.status == status->0
            &&& status is None ==> j.status == fresh.status && j.control == fresh.control
            &&& status is Some && status->0 is Paused ==> j.control is Pause
            &&& status is Some && !(status->0 is Paused) ==> j.control == fresh.control
            &&& j.id == fresh.id && j.url == fresh.url && j.output_path == fresh.output_path
            &&& j.connections == fresh.connections && j.headers == fresh.headers
        }),
{
}

/// What the database keeps of an ended transfer: its end, with the bytes of a completed one and the
/// progress of a paused one. A failure is kept with its message.
pub proof fn law_ends_are_recorded(
    outcome: OutcomeView,
    id: JobId,
    downloaded: u64,
    total_size: u64,
)
    ensures
        ({
            &&& outcome.record(id, downloaded, total_size) matches manager::EffectView::Persist {
                id: row,
                status,
                downloaded: d,
                total_size: t,
            }
            &&& row == id as i64
            &&& match outcome {
                OutcomeView::Completed { downloaded: got, total_size: size } => status == "Done"@
                    && d == got && t == size,
                OutcomeView::Stopped { message } => {
                    let paused = text::has_text(message, "Paused"@);
                    let cancelled = !paused && text::has_text(message, "Cancelled"@);
                    &&& paused ==> status == "Paused"@ && d == downloaded && t == total_size
                    &&& cancelled ==> status == "Cancelled"@ && d == 0 && t == 0
                    &&& !paused && !cancelled ==> status == "Failed: "@ + message && d == 0 && t == 0
                },
            }
        }),
        outcome matches OutcomeView::Stopped { message } ==> {
            let paused = text::has_text(message, "Paused"@);
            let cancelled = !paused && text::has_text(message, "Cancelled"@);
            &&& paused ==> outcome.status() is Paused
            &&& cancelled ==> outcome.status() == job::StatusView::Failed("Cancelled"@)
            &&& !paused && !cancelled ==> outcome.status() == job::StatusView::Failed(message)
        },
        outcome is Completed ==> outcome.status() is Done,
{
}

/// Subscribers are told at every step, and the database exactly where it is kept.
pub proof fn law_steps_are_told(
    id: JobId,
    outcome: OutcomeView,
    downloaded: u64,
    total_size: u64,
)
    ensures
        ({
            let told = manager::EffectView::Emit(manager::ManagerEvent::JobsChanged);
            &&& manager::start_effects(id, false) == seq![told]
            &&& manager::refusal_effects(id, false) == seq![told]
            &&& manager::end_effects(id, outcome, downloaded, total_size, false) == seq![told]
            &&& manager::start_effects(id, true) == seq![
                manager::EffectView::Persist {
                    id: id as i64,
                    status: "Active"@,
                    downloaded: 0,
                    total_size: 0,
                },
                told,
            ]
            &&& manager::refusal_effects(id, true) == seq![
                told,
                manager::EffectView::Persist {
                    id: id as i64,
                    status: "Cancelled"@,
                    downloaded: 0,
                    total_size: 0,
                },
            ]
            &&& manager::end_effects(id, outcome, downloaded, total_size, true) == seq![
                told,
                outcome.record(id, downloaded, total_size),
            ]
        }),
{
    let told = manager::EffectView::Emit(manager::ManagerEvent::JobsChanged);
    assert(manager::end_effects(id, outcome, downloaded, total_size, true) =~= seq![
        told,
        outcome.record(id, downloaded, total_size),
    ]);
}

/// The end of a transfer changes the status of its job and the moment of its end, and with success
/// its size. Its number stays controlled only where it is paused. No other job changes, and no other
/// number.
pub proof fn law_ends_touch_one_job(
    q: QueueView,
    id: JobId,
    at: int,
    outcome: OutcomeView,
    now: i64,
    other: JobId,
)
    requires
        q.wf(),
        q.position(id) == Some(at),
        other != id,
    ensures
        ({
            let after = q.finished(id, outcome, now);
            &&& after.jobs.len() == q.jobs.len()
            &&& forall|i: int|
                0 <= i < q.jobs.len() && i != at ==> #[trigger] after.jobs[i] == q.jobs[i]
            &&& after.jobs[at].status == outcome.status()
            &&& after.jobs[at].ended_at == Some(now)
            &&& after.jobs[at] == (job::JobView {
                status: after.jobs[at].status,
                ended_at: after.jobs[at].ended_at,
                total_size: after.jobs[at].total_size,
                live_total: after.jobs[at].live_total,
                ..q.jobs[at]
            })
            &&& outcome is Stopped ==> after.jobs[at].total_size == q.jobs[at].total_size
                && after.jobs[at].live_total == q.jobs[at].live_total
            &&& after.controlled(id) == if outcome.status() is Paused {
                q.controlled(id)
            } else {
                None
            }
            &&& after.controlled(other) == q.controlled(other)
            &&& after.next_id == q.next_id
        }),
{
    manager::lemma_position_from(q.jobs, id, 0);
    let mid = q.freed().with_status(id, outcome.status(), now);
    manager::lemma_position_from(mid.jobs, id, 0);
    assert(mid.jobs[at].id == id);
    assert forall|j: int| 0 <= j < at implies (#[trigger] mid.jobs[j]).id != id by {
        assert(mid.jobs[j] == q.jobs[j]);
    }
}

/// A signal reaches the job that its number controls, and changes nothing but its signal.
pub proof fn law_signals_reach_one_job(q: QueueView, id: JobId, signal: JobControl)
    requires
        q.wf(),
    ensures
        match q.controlled(id) {
            Some(at) => q.jobs[at].id == id && q.signalled(id, signal) == (QueueView {
                jobs: q.jobs.update(at, job::JobView { control: signal, ..q.jobs[at] }),
                ..q
            }),
            None => q.signalled(id, signal) == q,
        },
        q.controlled(id) == if q.index.contains_key(id) {
            Some(q.index[id] as int)
        } else {
            None
        },
{
}

/// After a job was moved up, every number of the queue leads to a job of that number.
pub proof fn law_moving_up_keeps_numbers_found(q: QueueView, id: JobId, at: int, i: int)
    requires
        q.position(id) == Some(at),
        at > 0,
        q.jobs.len() <= usize::MAX,
        0 <= i < q.jobs.len(),
    ensures
        ({
            let up = q.moved_up(id);
            &&& up.controlled(up.jobs[i].id) is Some
            &&& up.jobs[up.controlled(up.jobs[i].id)->0].id == up.jobs[i].id
            &&& 0 <= up.controlled(up.jobs[i].id)->0 < up.jobs.len()
        }),
{
    manager::lemma_position_from(q.jobs, id, 0);
    let up = q.moved_up(id);
    lemma_indexed(up.jobs, up.jobs.len(), i);
}

proof fn lemma_indexed(jobs: Seq<job::JobView>, n: nat, i: int)
    requires
        0 <= i < n <= jobs.len() <= usize::MAX,
    ensures
        manager::index_below(jobs, n).contains_key(jobs[i].id),
        manager::index_below(jobs, n)[jobs[i].id] < n,
        jobs[manager::index_below(jobs, n)[jobs[i].id] as int].id == jobs[i].id,
    decreases n,
{
    if jobs[n - 1].id != jobs[i].id {
        lemma_indexed(jobs, (n - 1) as nat, i);
    }
}

/// Every job has its row in the printed queue, below those before it.
pub proof fn law_printed_queue_has_every_job(
    jobs: Seq<job::JobView>,
    percents: Seq<Seq<char>>,
    n: nat,
)
    ensures
        manager::status_rows(jobs, percents, n + 1) == manager::status_rows(jobs, percents, n)
            + listing::row(
            jobs[n as int].id,
            jobs[n as int].url,
            jobs[n as int].status.text(),
            percents[n as int],
        ),
        manager::status_rows(jobs, percents, 0) == Seq::<char>::empty(),
        jobs.len() > 0 ==> text::has_text(
            manager::status_table(jobs, percents),
            manager::status_rows(jobs, percents, jobs.len()),
        ),
{
    if jobs.len() > 0 {
        text::law_found_text_stands_there(
            manager::status_table(jobs, percents),
            manager::status_rows(jobs, percents, jobs.len()),
        );
        assert(manager::status_table(jobs, percents) == listing::head(10, 80)
            + manager::status_rows(jobs, percents, jobs.len()) + "\n"@);
    }
}

/// Only jobs that run are sampled, each for itself.
pub proof fn law_only_running_jobs_are_sampled(q: QueueView, now: i64, i: int)
    requires
        0 <= i < q.jobs.len(),
    ensures
        q.sampled(now).jobs.len() == q.jobs.len(),
        q.jobs[i].status is Active ==> q.sampled(now).jobs[i] == q.jobs[i].sampled(now),
        !(q.jobs[i].status is Active) ==> q.sampled(now).jobs[i] == q.jobs[i],
        q.sampled(now) == (QueueView { jobs: q.sampled(now).jobs, ..q }),
{
}

/// A cancellation takes the number out of control. A paused job has failed at once, and any other is
/// signalled; nothing else of it changes, nor any other job or number.
pub proof fn law_cancel_touches_one_job(q: QueueView, id: JobId, other: JobId)
    requires
        q.wf(),
        other != id,
    ensures
        ({
            let after = q.cancelled(id);
            &&& match q.controlled(id) {
                Some(at) => {
                    let j = q.jobs[at];
                    &&& j.status is Paused ==> after.jobs == q.jobs.update(
                        at,
                        job::JobView { status: job::StatusView::Failed("Cancelled"@), ..j },
                    )
                    &&& !(j.status is Paused) ==> after.jobs == q.jobs.update(
                        at,
                        job::JobView { control: JobControl::Cancel, ..j },
                    )
                },
                None => after == q,
            }
            &&& after.controlled(id) is None
            &&& after.controlled(other) == q.controlled(other)
            &&& after == (QueueView { jobs: after.jobs, index: after.index, ..q })
        }),
{
}

/// Only a paused job that is controlled is taken up again: it runs, under the signal to run, and has
/// not ended. Nothing else of it changes, nor any other job or number.
pub proof fn law_resume_touches_one_job(q: QueueView, id: JobId)
    requires
        q.wf(),
    ensures
        q.resumable(id) is Some <==> q.controlled(id) is Some && q.jobs[q.controlled(
            id,
        )->0].status is Paused,
        q.resumable(id) is Some ==> q.resumable(id) == q.controlled(id),
        match q.resumable(id) {
            Some(at) => q.resumed(id) == (QueueView {
                jobs: q.jobs.update(
                    at,
                    job::JobView {
                        control: JobControl::Run,
                        status: job::StatusView::Active,
                        ended_at: None,
                        ..q.jobs[at]
                    },
                ),
                ..q
            }),
            None => q.resumed(id) == q,
        },
{
}

/// A transfer begins unless its job was cancelled. It then takes a slot and changes no job; without
/// a free slot nothing changes. A cancelled job fails at that moment, its number is out of control,
/// and no other job or number changes.
pub proof fn law_cancelled_jobs_do_not_begin(
    q: QueueView,
    id: JobId,
    at: int,
    control: JobControl,
    now: i64,
    other: JobId,
)
    requires
        q.position(id) == Some(at),
        other != id,
    ensures
        ({
            let after = q.begun(id, control, now);
            &&& !(control is Cancel) && q.running < q.max_concurrent ==> after.running == q.running
                + 1 && after == (QueueView { running: after.running, ..q })
            &&& !(control is Cancel) && q.running >= q.max_concurrent ==> after == q
            &&& control is Cancel ==> after.jobs == q.jobs.update(
                at,
                job::JobView {
                    status: job::StatusView::Failed("Cancelled"@),
                    ended_at: Some(now),
                    ..q.jobs[at]
                },
            ) && after.controlled(id) is None && after.controlled(other) == q.controlled(other)
                && after.next_id == q.next_id
            &&& after.max_concurrent == q.max_concurrent
        }),
{
    manager::lemma_position_from(q.jobs, id, 0);
}

/// What is asked for a number that the queue does not have changes none of its jobs.
pub proof fn law_unknown_numbers_change_no_job(
    q: QueueView,
    id: JobId,
    status: job::StatusView,
    outcome: OutcomeView,
    control: JobControl,
    now: i64,
)
    requires
        forall|i: int| 0 <= i < q.jobs.len() ==> (#[trigger] q.jobs[i]).id != id,
        q.wf(),
    ensures
        q.position(id) is None,
        q.controlled(id) is None,
        q.with_status(id, status, now) == q,
        q.finished(id, outcome, now).jobs == q.jobs,
        q.begun(id, control, now).jobs == q.jobs,
        q.moved_up(id) == q,
        q.cancelled(id) == q,
        q.resumed(id) == q,
        q.signalled(id, control) == q,
{
    manager::lemma_position_from(q.jobs, id, 0);
    if q.controlled(id) is Some {
        assert(q.jobs[q.index[id] as int].id == id);
    }
}

/// The first job stays where it is when it is moved up; any other job changes places with the one
/// before it.
pub proof fn law_moving_up_exchanges_two_jobs(q: QueueView, id: JobId, at: int, i: int)
    requires
        q.position(id) == Some(at),
        0 <= i < q.jobs.len(),
    ensures
        at == 0 ==> q.moved_up(id) == q,
        at > 0 ==> q.moved_up(id).jobs.len() == q.jobs.len() && q.moved_up(id).jobs[at - 1]
            == q.jobs[at] && q.moved_up(id).jobs[at] == q.jobs[at - 1],
        at > 0 && i != at && i != at - 1 ==> q.moved_up(id).jobs[i] == q.jobs[i],
        q.moved_up(id) == (QueueView {
            jobs: q.moved_up(id).jobs,
            index: q.moved_up(id).index,
            ..q
        }),
{
    manager::lemma_position_from(q.jobs, id, 0);
}

/// An empty queue is printed as such, and only an empty one.
pub proof fn law_empty_queue_is_printed_as_such(jobs: Seq<job::JobView>, percents: Seq<Seq<char>>)
    ensures
        jobs.len() == 0 ==> manager::status_table(jobs, percents) == "Queue is empty.\n"@,
        jobs.len() > 0 ==> text::begins_with(
            manager::status_table(jobs, percents),
            listing::head(10, 80),
        ),
{
    if jobs.len() > 0 {
        let table = manager::status_table(jobs, percents);
        let head = listing::head(10, 80);
        assert(table =~= head + (manager::status_rows(jobs, percents, jobs.len()) + "\n"@));
        text::law_beginnings_stand_first(table, head);
    }
}

} // verus!
