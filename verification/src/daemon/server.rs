//! The daemon's socket: where it lies, which jobs come back at the start, and how clients are
//! answered and kept up to date. Every message is one line of JSON.

use vstd::prelude::*;
use vstd::string::*;

use crate::clock;
use crate::clock::Clock;
use crate::ipc::message;
use crate::ipc::message::{JobSummary, Response};
use crate::places;
use crate::queue::job;
use crate::queue::job::{JobControl, JobStatus};
use crate::queue::manager;
use crate::queue::manager::{Effect, ManagerEvent, QueueManager};
use crate::text;

verus! {

/// Path to the Unix domain socket file, where local data is kept in `data`.
pub fn socket_path(data: Option<String>) -> (r: String)
    ensures
        r@ == places::data_file(text::text_opt(data), "shard.sock"@),
{
    places::data_file_in(data, "shard.sock")
}

/// The moment of a calendar second that may be missing, where it has passed.
pub open spec fn restored_moment(clock: Clock, epoch: Option<i64>) -> Option<i64> {
    match epoch {
        Some(e) => clock.moment(e),
        None => None,
    }
}

fn moment_of_stamp(clock: &Clock, epoch: Option<i64>) -> (r: Option<i64>)
    requires
        clock.mono >= 0,
        epoch matches Some(e) ==> e >= 0,
    ensures
        r == restored_moment(*clock, epoch),
{
    match epoch {
        Some(e) => clock.moment_of(e),
        None => None,
    }
}

/// Convert epoch seconds to moments for restored in-memory job timestamps.
pub fn persisted_instants(started_at: Option<i64>, ended_at: Option<i64>, clock: &Clock) -> (r: (
    Option<i64>,
    Option<i64>,
))
    requires
        clock.mono >= 0,
        started_at matches Some(e) ==> e >= 0,
        ended_at matches Some(e) ==> e >= 0,
    ensures
        r.0 == restored_moment(*clock, started_at),
        r.1 == restored_moment(*clock, ended_at),
{
    (moment_of_stamp(clock, started_at), moment_of_stamp(clock, ended_at))
}

/// Whether the size of the file of a stored job has to be looked up in its resume state.
pub open spec fn lacks_size(row: message::SummaryView) -> bool {
    row.status == "Paused"@ && row.total_size == 0
}

/// Whether the size of the file of a stored job has to be looked up in its resume state: the job
/// is paused, and no size was stored.
pub fn needs_part_state(row: &JobSummary) -> (r: bool)
    ensures
        r == lacks_size(row@),
{
    text::same_text(row.status.as_str(), "Paused") && row.total_size == 0
}

/// The size of the file of a stored job, where `part` is the size in its resume state.
pub open spec fn recovered_size(row: message::SummaryView, part: Option<u64>) -> u64 {
    match part {
        Some(size) if lacks_size(row) => size,
        _ => row.total_size,
    }
}

/// The job that a stored job becomes.
pub open spec fn restored_job(
    row: message::SummaryView,
    part: Option<u64>,
    clock: Clock,
) -> job::JobView {
    manager::restored(
        job::queued(
            row.id,
            row.url,
            row.output_path,
            row.chunks_total,
            Seq::empty(),
            clock.mono,
        ),
        if row.status == "Paused"@ {
            Some(job::StatusView::Paused)
        } else {
            None
        },
        recovered_size(row, part),
        row.downloaded,
        restored_moment(clock, row.started_at),
        restored_moment(clock, row.ended_at),
    )
}

/// Puts a stored job back into the queue, paused where it was paused, else waiting. `part` is the
/// size in its resume state. A size that was found there is stored, so that it need not be looked
/// up again.
pub fn restore_job(queue: &mut QueueManager, row: &JobSummary, part: Option<u64>, clock: &Clock) -> (r: Vec<
    Effect,
>)
    requires
        old(queue)@.wf(),
        row@.id < u64::MAX,
        clock.mono >= 0,
        row@.started_at matches Some(e) ==> e >= 0,
        row@.ended_at matches Some(e) ==> e >= 0,
    ensures
        final(queue)@ == old(queue)@.added(restored_job(row@, part, *clock)),
        final(queue)@.wf(),
        manager::effects(r@) == (if recovered_size(row@, part) != row@.total_size {
            seq![
                manager::EffectView::Emit(ManagerEvent::JobsChanged),
                manager::EffectView::Persist {
                    id: row@.id as i64,
                    status: row@.status,
                    downloaded: row@.downloaded,
                    total_size: recovered_size(row@, part),
                },
            ]
        } else {
            seq![manager::EffectView::Emit(ManagerEvent::JobsChanged)]
        }),
{
    let initial_status: Option<JobStatus> = if text::same_text(row.status.as_str(), "Paused") {
        Some(JobStatus::Paused)
    } else {
        None
    };
    let (started_at, ended_at) = persisted_instants(row.started_at, row.ended_at, clock);
    let size: u64 = if needs_part_state(row) {
        match part {
            Some(found) => found,
            None => row.total_size,
        }
    } else {
        row.total_size
    };
    let headers: Vec<(String, String)> = Vec::new();
    assert(text::text_pairs(headers@) =~= Seq::empty());
    let event = queue.add_with_id(
        row.id,
        row.url.clone(),
        row.output_path.clone(),
        row.chunks_total,
        headers,
        initial_status,
        size,
        row.downloaded,
        started_at,
        ended_at,
        clock.mono,
    );
    let mut effects: Vec<Effect> = Vec::new();
    effects.push(Effect::Emit(event));
    if size != row.total_size {
        effects.push(
            Effect::Persist {
                id: row.id as i64,
                status: row.status.clone(),
                downloaded: row.downloaded,
                total_size: size,
            },
        );
    }
    assert(manager::effects(effects@) =~= (if recovered_size(row@, part) != row@.total_size {
        seq![
            manager::EffectView::Emit(ManagerEvent::JobsChanged),
            manager::EffectView::Persist {
                id: row@.id as i64,
                status: row@.status,
                downloaded: row@.downloaded,
                total_size: recovered_size(row@, part),
            },
        ]
    } else {
        seq![manager::EffectView::Emit(ManagerEvent::JobsChanged)]
    }));
    effects
}

/// Whether the first line of a client asks for a subscription.
pub fn is_subscription(line: &str) -> (r: bool)
    ensures
        r == text::has_text(line@, "\"subscribe\""@),
{
    text::contains_text(line, "\"subscribe\"")
}

/// The line that carries the message `json`; where a message could not be written as JSON, a line
/// that says so.
pub open spec fn frame(json: Option<Seq<char>>) -> Seq<char> {
    (match json {
        Some(j) => j,
        None => "{\"type\":\"error\",\"message\":\"serialization failed\"}"@,
    }).push('\n')
}

/// The line that carries the message `json`.
pub fn frame_line(json: Option<String>) -> (r: String)
    ensures
        r@ == frame(text::text_opt(json)),
{
    let mut r = match json {
        Some(j) => j,
        None => "{\"type\":\"error\",\"message\":\"serialization failed\"}".to_owned(),
    };
    r.push('\n');
    r
}

/// Whether a subscriber that has been told of `told` is owed an update when the queue holds `jobs`.
pub open spec fn owed(
    told: Option<Seq<message::SummaryView>>,
    jobs: Seq<message::SummaryView>,
) -> bool {
    told != Some(jobs)
}

/// What a subscriber has been told.
#[derive(Debug)]
pub struct Subscription {
    last_jobs: Option<Vec<JobSummary>>,
}

impl View for Subscription {
    type V = Option<Seq<message::SummaryView>>;

    closed spec fn view(&self) -> Option<Seq<message::SummaryView>> {
        match self.last_jobs {
            Some(jobs) => Some(message::summaries(jobs@)),
            None => None,
        }
    }
}

impl Subscription {
    /// A subscriber that has been told nothing.
    pub fn new() -> (r: Subscription)
        ensures
            r@ is None,
    {
        Subscription { last_jobs: None }
    }

    /// The update that a subscriber is owed when the queue holds `jobs`: all of them, where they
    /// differ from what it was told last.
    pub fn update(&mut self, jobs: Vec<JobSummary>) -> (r: Option<Response>)
        ensures
            final(self)@ == Some(message::summaries(jobs@)),
            match r {
                Some(response) => owed(old(self)@, message::summaries(jobs@)) && response@ == (
                message::ResponseView::Update { jobs: message::summaries(jobs@) }),
                None => !owed(old(self)@, message::summaries(jobs@)),
            },
    {
        let changed: bool = match &self.last_jobs {
            Some(prev) => !message::same_summaries(&jobs, prev),
            None => true,
        };
        if changed {
            let update = Response::Update { jobs: message::copy_summaries(&jobs) };
            self.last_jobs = Some(jobs);
            Some(update)
        } else {
            None
        }
    }
}

/// A new subscriber is told of the queue, and then of nothing but changes.
pub proof fn law_subscribers_hear_of_changes(
    told: Seq<message::SummaryView>,
    jobs: Seq<message::SummaryView>,
)
    ensures
        owed(None, jobs),
        owed(Some(told), jobs) == (told != jobs),
{
}

/// A job that was paused comes back from what was stored of it as it was: paused, with its
/// progress, and ready to be resumed.
pub proof fn law_paused_jobs_survive_a_restart(
    q: manager::QueueView,
    row: message::SummaryView,
    message: Seq<char>,
    downloaded: u64,
    total_size: u64,
    part: Option<u64>,
    clock: Clock,
)
    requires
        text::has_text(message, "Paused"@),
        (manager::OutcomeView::Stopped { message }).record(row.id, downloaded, total_size) == (
        manager::EffectView::Persist {
            id: row.id as i64,
            status: row.status,
            downloaded: row.downloaded,
            total_size: row.total_size,
        }),
        q.jobs.len() < usize::MAX,
    ensures
        ({
            let after = q.added(restored_job(row, part, clock));
            let at = q.jobs.len() as int;
            &&& after.resumable(row.id) == Some(at)
            &&& after.jobs[at].downloaded == downloaded
            &&& total_size > 0 ==> after.jobs[at].live_total == total_size
            &&& after.jobs[at].url == row.url
            &&& after.jobs[at].output_path == row.output_path
        }),
{
}

/// A paused job that comes back is paused under the signal to pause, and any other one waits under
/// the signal to run. Its number, URL, path and progress are those that were stored.
pub proof fn law_restored_jobs_do_not_start(row: message::SummaryView, part: Option<u64>, clock: Clock)
    ensures
        ({
            let j = restored_job(row, part, clock);
            &&& !(j.status is Active)
            &&& (j.status is Paused) == (row.status == "Paused"@)
            &&& (j.status is Paused) == (j.control == JobControl::Pause)
            &&& j.id == row.id && j.url == row.url && j.output_path == row.output_path
            &&& j.downloaded == row.downloaded
        }),
{
}

/// A restored job is shown with the seconds at which it was stored, at any later reading of clocks
/// that have advanced together.
pub proof fn law_restored_jobs_keep_their_seconds(
    row: message::SummaryView,
    part: Option<u64>,
    before: Clock,
    after: Clock,
)
    requires
        before.mono >= 0,
        after.mono >= before.mono,
        after.mono - before.mono == after.unix - before.unix,
        row.started_at matches Some(e) && 0 <= e && e * 1_000_000_000 <= before.unix,
        row.ended_at matches Some(e) && 0 <= e && e * 1_000_000_000 <= before.unix,
    ensures
        manager::summary_of(restored_job(row, part, before), after).started_at == row.started_at,
        manager::summary_of(restored_job(row, part, before), after).ended_at == row.ended_at,
{
    clock::law_restored_moment_keeps_its_second(before, after, row.started_at->0);
    clock::law_restored_moment_keeps_its_second(before, after, row.ended_at->0);
}

} // verus!
