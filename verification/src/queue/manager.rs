//! The queue of jobs: adding, control signals, the order of work, and snapshots.
//!
//! Transfers, locks and the database belong to the caller. It reports what happened, and each
//! method says what to do next.

use std::collections::HashMap;

use vstd::prelude::*;
use vstd::string::*;

use crate::clock::Clock;
use crate::ipc::message;
use crate::ipc::message::JobSummary;
use crate::listing;
use crate::queue::job;
use crate::queue::job::{DownloadJob, JobControl, JobId, JobStatus};
use crate::text;

verus! {

broadcast use vstd::std_specs::hash::group_hash_axioms;

/// Events emitted by QueueManager for subscribers.
#[derive(Debug, Clone, Copy, PartialEq, Eq, Structural)]
pub enum ManagerEvent {
    JobsChanged,
}

/// What a `QueueManager` holds.
pub struct QueueView {
    pub jobs: Seq<job::JobView>,
    /// Where to find the jobs that can be controlled.
    pub index: Map<JobId, usize>,
    pub next_id: JobId,
    pub max_concurrent: usize,
    /// How many transfers have begun and not ended.
    pub running: usize,
    pub runner_running: bool,
}

/// What a sequence of jobs holds.
pub open spec fn job_views(v: Seq<DownloadJob>) -> Seq<job::JobView> {
    Seq::new(v.len(), |i: int| v[i]@)
}

/// The first position at or after `from` of a job with the number `id`.
pub open spec fn position_from(jobs: Seq<job::JobView>, id: JobId, from: int) -> Option<int>
    decreases jobs.len() - from,
{
    if from < 0 || from >= jobs.len() {
        None
    } else if jobs[from].id == id {
        Some(from)
    } else {
        position_from(jobs, id, from + 1)
    }
}

impl QueueView {
    /// The entries of the index lead to jobs of their number, all numbers given out so far lie
    /// below the next one, and no more transfers run than may.
    pub open spec fn wf(self) -> bool {
        &&& forall|id: JobId| #[trigger]
            self.index.contains_key(id) ==> self.index[id] < self.jobs.len()
                && self.jobs[self.index[id] as int].id == id
        &&& forall|i: int| 0 <= i < self.jobs.len() ==> (#[trigger] self.jobs[i]).id < self.next_id
        &&& self.running <= self.max_concurrent
    }

    /// Whether another transfer may begin.
    pub open spec fn slot_free(self) -> bool {
        self.running < self.max_concurrent
    }

    /// The queue after a transfer has ended, which leaves its slot to another.
    pub open spec fn freed(self) -> QueueView {
        QueueView {
            running: if self.running > 0 {
                (self.running - 1) as usize
            } else {
                0
            },
            ..self
        }
    }

    /// The position of the job that is controlled under the number `id`.
    pub open spec fn controlled(self, id: JobId) -> Option<int> {
        if self.index.contains_key(id) {
            Some(self.index[id] as int)
        } else {
            None
        }
    }

    /// The first position of a job with the number `id`.
    pub open spec fn position(self, id: JobId) -> Option<int> {
        position_from(self.jobs, id, 0)
    }

    /// The queue with `new` at its end.
    pub open spec fn added(self, new: job::JobView) -> QueueView {
        QueueView {
            jobs: self.jobs.push(new),
            index: self.index.insert(new.id, self.jobs.len() as usize),
            next_id: if self.next_id > new.id {
                self.next_id
            } else {
                (new.id + 1) as u64
            },
            ..self
        }
    }

    /// The queue with `new` in the place of the job at position `at`.
    pub open spec fn replaced(self, at: int, new: job::JobView) -> QueueView {
        QueueView { jobs: self.jobs.update(at, new), ..self }
    }

    /// The queue in which the number `id` is no longer controlled. The job itself stays.
    pub open spec fn released(self, id: JobId) -> QueueView {
        QueueView { index: self.index.remove(id), ..self }
    }

    /// The queue after `signal` was sent to the job controlled under `id`.
    pub open spec fn signalled(self, id: JobId, signal: JobControl) -> QueueView {
        match self.controlled(id) {
            Some(at) => self.replaced(at, job::JobView { control: signal, ..self.jobs[at] }),
            None => self,
        }
    }

    /// The queue with the first job of the number `id` in another status.
    pub open spec fn with_status(self, id: JobId, status: job::StatusView, now: i64) -> QueueView {
        match self.position(id) {
            Some(at) => self.replaced(at, self.jobs[at].with_status(status, now)),
            None => self,
        }
    }

    /// The queue with the size of the first job of the number `id` set.
    pub open spec fn with_total(self, id: JobId, size: u64) -> QueueView {
        match self.position(id) {
            Some(at) => self.replaced(
                at,
                job::JobView { total_size: size, live_total: size, ..self.jobs[at] },
            ),
            None => self,
        }
    }
}

/// `position_from` gives the first position, and gives none only when no job has the number.
pub proof fn lemma_position_from(jobs: Seq<job::JobView>, id: JobId, from: int)
    requires
        0 <= from,
    ensures
        match position_from(jobs, id, from) {
            Some(at) => from <= at < jobs.len() && jobs[at].id == id && forall|j: int|
                from <= j < at ==> (#[trigger] jobs[j]).id != id,
            None => forall|j: int| from <= j < jobs.len() ==> (#[trigger] jobs[j]).id != id,
        },
    decreases jobs.len() - from,
{
    if from < jobs.len() && jobs[from].id != id {
        lemma_position_from(jobs, id, from + 1);
    }
}

/// Everything a transfer needs to know about the job that it works on.
#[derive(Debug)]
pub struct Launch {
    /// Where the job stands in the queue.
    pub position: usize,
    pub id: JobId,
    pub url: String,
    pub output_path: String,
    pub connections: u8,
    pub headers: Vec<(String, String)>,
}

/// What a `Launch` holds.
pub struct LaunchView {
    pub position: int,
    pub id: JobId,
    pub url: Seq<char>,
    pub output_path: Seq<char>,
    pub connections: u8,
    pub headers: Seq<(Seq<char>, Seq<char>)>,
}

impl View for Launch {
    type V = LaunchView;

    open spec fn view(&self) -> LaunchView {
        LaunchView {
            position: self.position as int,
            id: self.id,
            url: self.url@,
            output_path: self.output_path@,
            connections: self.connections,
            headers: text::text_pairs(self.headers@),
        }
    }
}

/// What a transfer needs to know about the job `j` at position `at`.
pub open spec fn launch_of(j: job::JobView, at: int) -> LaunchView {
    LaunchView {
        position: at,
        id: j.id,
        url: j.url,
        output_path: j.output_path,
        connections: j.connections,
        headers: j.headers,
    }
}

/// What is to be done outside the queue, in order.
#[derive(Debug)]
pub enum Effect {
    /// Tell the subscribers.
    Emit(ManagerEvent),
    /// Write the state of a job to the database.
    Persist { id: i64, status: String, downloaded: u64, total_size: u64 },
    /// Remove a job from the database.
    Delete { id: i64 },
}

/// What an `Effect` asks for.
pub enum EffectView {
    Emit(ManagerEvent),
    Persist { id: i64, status: Seq<char>, downloaded: u64, total_size: u64 },
    Delete { id: i64 },
}

impl View for Effect {
    type V = EffectView;

    open spec fn view(&self) -> EffectView {
        match *self {
            Effect::Emit(e) => EffectView::Emit(e),
            Effect::Persist { id, status, downloaded, total_size } => EffectView::Persist {
                id,
                status: status@,
                downloaded,
                total_size,
            },
            Effect::Delete { id } => EffectView::Delete { id },
        }
    }
}

/// What a sequence of effects asks for.
pub open spec fn effects(v: Seq<Effect>) -> Seq<EffectView> {
    Seq::new(v.len(), |i: int| v[i]@)
}

/// How a transfer ended.
#[derive(Debug)]
pub enum TaskOutcome {
    /// The file is on disk.
    Completed { downloaded: u64, total_size: u64 },
    /// The transfer gave up with this message.
    Stopped { message: String },
}

/// What a `TaskOutcome` says.
pub enum OutcomeView {
    Completed { downloaded: u64, total_size: u64 },
    Stopped { message: Seq<char> },
}

impl View for TaskOutcome {
    type V = OutcomeView;

    open spec fn view(&self) -> OutcomeView {
        match *self {
            TaskOutcome::Completed { downloaded, total_size } => OutcomeView::Completed {
                downloaded,
                total_size,
            },
            TaskOutcome::Stopped { message } => OutcomeView::Stopped { message: message@ },
        }
    }
}

impl OutcomeView {
    /// The status of a job whose transfer ended this way.
    pub open spec fn status(self) -> job::StatusView {
        match self {
            OutcomeView::Completed { .. } => job::StatusView::Done,
            OutcomeView::Stopped { message } => if text::has_text(message, "Paused"@) {
                job::StatusView::Paused
            } else if text::has_text(message, "Cancelled"@) {
                job::StatusView::Failed("Cancelled"@)
            } else {
                job::StatusView::Failed(message)
            },
        }
    }

    /// What the database keeps of a job whose transfer ended this way: its status and its
    /// progress, which for a paused job is the one that the transfer had reached.
    pub open spec fn record(self, id: JobId, downloaded: u64, total_size: u64) -> EffectView {
        match self {
            OutcomeView::Completed { downloaded, total_size } => EffectView::Persist {
                id: id as i64,
                status: "Done"@,
                downloaded,
                total_size,
            },
            OutcomeView::Stopped { message } => if text::has_text(message, "Paused"@) {
                EffectView::Persist { id: id as i64, status: "Paused"@, downloaded, total_size }
            } else if text::has_text(message, "Cancelled"@) {
                EffectView::Persist {
                    id: id as i64,
                    status: "Cancelled"@,
                    downloaded: 0,
                    total_size: 0,
                }
            } else {
                EffectView::Persist {
                    id: id as i64,
                    status: "Failed: "@ + message,
                    downloaded: 0,
                    total_size: 0,
                }
            },
        }
    }
}

/// A queued job with the state that it had before.
pub open spec fn restored(
    fresh: job::JobView,
    status: Option<job::StatusView>,
    total_size: u64,
    downloaded: u64,
    started_at: Option<i64>,
    ended_at: Option<i64>,
) -> job::JobView {
    job::JobView {
        status: match status {
            Some(s) => s,
            None => fresh.status,
        },
        control: if status == Some(job::StatusView::Paused) {
            JobControl::Pause
        } else {
            fresh.control
        },
        total_size,
        live_total: total_size,
        downloaded,
        started_at,
        ended_at,
        ..fresh
    }
}

/// The first position at or after `from` of a job that waits.
pub open spec fn waiting_from(jobs: Seq<job::JobView>, from: int) -> Option<int>
    decreases jobs.len() - from,
{
    if from < 0 || from >= jobs.len() {
        None
    } else if jobs[from].status is Pending {
        Some(from)
    } else {
        waiting_from(jobs, from + 1)
    }
}

/// `waiting_from` gives the first position, and gives none only when no job waits.
pub proof fn lemma_waiting_from(jobs: Seq<job::JobView>, from: int)
    requires
        0 <= from,
    ensures
        match waiting_from(jobs, from) {
            Some(at) => from <= at < jobs.len() && jobs[at].status is Pending && forall|j: int|
                from <= j < at ==> !((#[trigger] jobs[j]).status is Pending),
            None => forall|j: int| from <= j < jobs.len() ==> !((#[trigger] jobs[j]).status is Pending),
        },
    decreases jobs.len() - from,
{
    if from < jobs.len() && !(jobs[from].status is Pending) {
        lemma_waiting_from(jobs, from + 1);
    }
}

/// The index of all of the first `n` jobs; of jobs with the same number, the last one counts.
pub open spec fn index_below(jobs: Seq<job::JobView>, n: nat) -> Map<JobId, usize>
    decreases n,
{
    if n == 0 {
        Map::empty()
    } else {
        index_below(jobs, (n - 1) as nat).insert(jobs[n - 1].id, (n - 1) as usize)
    }
}

proof fn lemma_index_below(jobs: Seq<job::JobView>, n: nat)
    requires
        n <= jobs.len() <= usize::MAX,
    ensures
        forall|id: JobId| #[trigger]
            index_below(jobs, n).contains_key(id) ==> index_below(jobs, n)[id] < n
                && jobs[index_below(jobs, n)[id] as int].id == id,
    decreases n,
{
    if n > 0 {
        lemma_index_below(jobs, (n - 1) as nat);
    }
}

impl QueueView {
    /// The queue after the job `id` was cancelled. A paused job fails at once; any other job is
    /// told, and fails when its turn or its next piece of data comes.
    pub open spec fn cancelled(self, id: JobId) -> QueueView {
        match self.controlled(id) {
            Some(at) => if self.jobs[at].status is Paused {
                self.replaced(
                    at,
                    job::JobView {
                        status: job::StatusView::Failed("Cancelled"@),
                        ..self.jobs[at]
                    },
                ).released(id)
            } else {
                self.signalled(id, JobControl::Cancel).released(id)
            },
            None => self,
        }
    }

    /// The position of the job that `resume` takes up again.
    pub open spec fn resumable(self, id: JobId) -> Option<int> {
        match self.controlled(id) {
            Some(at) if self.jobs[at].status is Paused => Some(at),
            _ => None,
        }
    }

    /// The queue after the job `id` was resumed.
    pub open spec fn resumed(self, id: JobId) -> QueueView {
        match self.resumable(id) {
            Some(at) => self.replaced(
                at,
                job::JobView {
                    control: JobControl::Run,
                    status: job::StatusView::Active,
                    ended_at: None,
                    ..self.jobs[at]
                },
            ),
            None => self,
        }
    }

    /// The queue after the job `id` was moved one place towards the front.
    pub open spec fn moved_up(self, id: JobId) -> QueueView {
        match self.position(id) {
            Some(at) if at > 0 => {
                let jobs = self.jobs.update(at - 1, self.jobs[at]).update(at, self.jobs[at - 1]);
                QueueView { jobs, index: index_below(jobs, jobs.len()), ..self }
            },
            _ => self,
        }
    }

    /// The job that is worked on next.
    pub open spec fn waiting(self) -> Option<int> {
        waiting_from(self.jobs, 0)
    }

    /// The queue after the next waiting job was taken up.
    pub open spec fn launched(self, now: i64) -> QueueView {
        match self.waiting() {
            Some(at) => self.replaced(
                at,
                job::JobView {
                    status: job::StatusView::Active,
                    ended_at: None,
                    started_at: match self.jobs[at].started_at {
                        Some(t) => Some(t),
                        None => Some(now),
                    },
                    ..self.jobs[at]
                },
            ),
            None => self,
        }
    }

    /// The queue after the transfer of the job `id` was about to begin under the signal `control`: a
    /// cancelled job fails instead, and without a free slot nothing happens.
    pub open spec fn begun(self, id: JobId, control: JobControl, now: i64) -> QueueView {
        if !begins(control) {
            self.with_status(id, job::StatusView::Failed("Cancelled"@), now).released(id)
        } else if self.slot_free() {
            QueueView { running: (self.running + 1) as usize, ..self }
        } else {
            self
        }
    }

    /// The queue after the transfer of the job `id` ended, whatever way. Its slot is free again.
    pub open spec fn finished(self, id: JobId, outcome: OutcomeView, now: i64) -> QueueView {
        let after = self.freed().with_status(id, outcome.status(), now);
        match outcome {
            OutcomeView::Completed { total_size, .. } => after.with_total(id, total_size).released(
                id,
            ),
            OutcomeView::Stopped { .. } => if outcome.status() is Paused {
                after
            } else {
                after.released(id)
            },
        }
    }

    /// The queue after the speed of every running job was sampled.
    pub open spec fn sampled(self, now: i64) -> QueueView {
        QueueView {
            jobs: Seq::new(
                self.jobs.len(),
                |i: int|
                    if self.jobs[i].status is Active {
                        self.jobs[i].sampled(now)
                    } else {
                        self.jobs[i]
                    },
            ),
            ..self
        }
    }
}

/// The lines of the first `n` jobs, each with its percentage.
pub open spec fn status_rows(jobs: Seq<job::JobView>, percents: Seq<Seq<char>>, n: nat) -> Seq<char>
    decreases n,
{
    if n == 0 {
        Seq::empty()
    } else {
        status_rows(jobs, percents, (n - 1) as nat) + listing::row(
            jobs[n - 1].id,
            jobs[n - 1].url,
            jobs[n - 1].status.text(),
            percents[n - 1],
        )
    }
}

/// The queue as a table, with the percentage of each job.
pub open spec fn status_table(jobs: Seq<job::JobView>, percents: Seq<Seq<char>>) -> Seq<char> {
    if jobs.len() == 0 {
        "Queue is empty.\n"@
    } else {
        listing::head(10, 80) + status_rows(jobs, percents, jobs.len()) + "\n"@
    }
}

/// What a client is told of the job `j`.
pub open spec fn summary_of(j: job::JobView, clock: Clock) -> message::SummaryView {
    message::SummaryView {
        id: j.id,
        url: j.url,
        output_path: j.output_path,
        status: j.status.text(),
        total_size: j.live_total,
        downloaded: j.downloaded,
        speed_bps: if j.status is Active && j.cached_speed > 0 {
            Some(j.cached_speed)
        } else {
            None
        },
        chunks_total: j.connections,
        chunks_done: j.chunks_done,
        started_at: match j.started_at {
            Some(t) => Some(clock.epoch(t) as i64),
            None => None,
        },
        ended_at: match j.ended_at {
            Some(t) => Some(clock.epoch(t) as i64),
            None => None,
        },
        added_at: None,
        error_msg: None,
    }
}

/// Whether a transfer begins under the signal `control`.
pub open spec fn begins(control: JobControl) -> bool {
    !(control is Cancel)
}

/// What is done when a job is taken up.
pub open spec fn start_effects(id: JobId, persist: bool) -> Seq<EffectView> {
    let told = EffectView::Emit(ManagerEvent::JobsChanged);
    if persist {
        seq![
            EffectView::Persist { id: id as i64, status: "Active"@, downloaded: 0, total_size: 0 },
            told,
        ]
    } else {
        seq![told]
    }
}

/// What is done when a job that was taken up turns out to be cancelled.
pub open spec fn refusal_effects(id: JobId, persist: bool) -> Seq<EffectView> {
    let told = EffectView::Emit(ManagerEvent::JobsChanged);
    if persist {
        seq![
            told,
            EffectView::Persist {
                id: id as i64,
                status: "Cancelled"@,
                downloaded: 0,
                total_size: 0,
            },
        ]
    } else {
        seq![told]
    }
}

/// What is done after a transfer ended.
pub open spec fn end_effects(
    id: JobId,
    outcome: OutcomeView,
    downloaded: u64,
    total_size: u64,
    persist: bool,
) -> Seq<EffectView> {
    let told = seq![EffectView::Emit(ManagerEvent::JobsChanged)];
    if persist {
        told.push(outcome.record(id, downloaded, total_size))
    } else {
        told
    }
}

/// Whether a transfer begins.
#[derive(Debug)]
pub enum Begin {
    /// It begins, and holds one of the slots until it ends.
    Go,
    /// All slots are held by other transfers.
    Full,
    /// The job was cancelled and has failed; this is to be done.
    Refused(Vec<Effect>),
}

/// The queue of jobs.
pub struct QueueManager {
    jobs: Vec<DownloadJob>,
    job_index: HashMap<JobId, usize>,
    next_id: JobId,
    max_concurrent: usize,
    running: usize,
    runner_running: bool,
}

impl View for QueueManager {
    type V = QueueView;

    closed spec fn view(&self) -> QueueView {
        QueueView {
            jobs: job_views(self.jobs@),
            index: self.job_index@,
            next_id: self.next_id,
            max_concurrent: self.max_concurrent,
            running: self.running,
            runner_running: self.runner_running,
        }
    }
}

/// A signal that was sent to the job at `position`.
#[derive(Debug, Clone, Copy, PartialEq, Eq, Structural)]
pub struct Signal {
    pub position: usize,
    pub control: JobControl,
}

impl QueueManager {
    /// An empty queue, which lets at most `max_concurrent` transfers run at a time.
    pub fn new(max_concurrent: usize) -> (r: QueueManager)
        ensures
            r@ == (QueueView {
                jobs: Seq::empty(),
                index: Map::empty(),
                next_id: 1,
                max_concurrent,
                running: 0,
                runner_running: false,
            }),
            r@.wf(),
    {
        let r = QueueManager {
            jobs: Vec::new(),
            job_index: HashMap::new(),
            next_id: 1,
            max_concurrent,
            running: 0,
            runner_running: false,
        };
        assert(job_views(r.jobs@) =~= Seq::<job::JobView>::empty());
        r
    }

    /// How many jobs the queue holds.
    pub fn len(&self) -> (r: usize)
        ensures
            r == self@.jobs.len(),
    {
        self.jobs.len()
    }

    /// How many transfers run at a time at most.
    pub fn max_concurrent(&self) -> (r: usize)
        ensures
            r == self@.max_concurrent,
    {
        self.max_concurrent
    }

    /// The last signal sent to the job at `position`.
    pub fn control_at(&self, position: usize) -> (r: JobControl)
        requires
            position < self@.jobs.len(),
        ensures
            r == self@.jobs[position as int].control,
    {
        self.jobs[position].control
    }

    /// The bytes downloaded and the size of the job at `position`, as its transfer knows them.
    pub fn progress_at(&self, position: usize) -> (r: (u64, u64))
        requires
            position < self@.jobs.len(),
        ensures
            r.0 == self@.jobs[position as int].downloaded,
            r.1 == self@.jobs[position as int].live_total,
    {
        (self.jobs[position].bytes_downloaded(), self.jobs[position].total_size_loaded())
    }

    /// Queue a new job under the next free number.
    pub fn add(
        &mut self,
        url: String,
        output_path: String,
        connections: u8,
        headers: Vec<(String, String)>,
        now: i64,
    ) -> (r: (JobId, ManagerEvent))
        requires
            old(self)@.wf(),
            old(self)@.next_id < u64::MAX,
        ensures
            r.0 == old(self)@.next_id,
            final(self)@ == old(self)@.added(
                job::queued(
                    r.0,
                    url@,
                    output_path@,
                    connections,
                    text::text_pairs(headers@),
                    now,
                ),
            ),
            final(self)@.wf(),
    {
        let id: JobId = self.next_id;
        let event = self.add_with_id(
            id,
            url,
            output_path,
            connections,
            headers,
            None,
            0,
            0,
            None,
            None,
            now,
        );
        (id, event)
    }

    /// Queue a job under the number `id`, with the state that it had before.
    pub fn add_with_id(
        &mut self,
        id: JobId,
        url: String,
        output_path: String,
        connections: u8,
        headers: Vec<(String, String)>,
        initial_status: Option<JobStatus>,
        initial_total_size: u64,
        initial_downloaded: u64,
        initial_started_at: Option<i64>,
        initial_ended_at: Option<i64>,
        now: i64,
    ) -> (r: ManagerEvent)
        requires
            old(self)@.wf(),
            id < u64::MAX,
        ensures
            final(self)@ == old(self)@.added(
                restored(
                    job::queued(
                        id,
                        url@,
                        output_path@,
                        connections,
                        text::text_pairs(headers@),
                        now,
                    ),
                    match initial_status {
                        Some(s) => Some(s@),
                        None => None,
                    },
                    initial_total_size,
                    initial_downloaded,
                    initial_started_at,
                    initial_ended_at,
                ),
            ),
            final(self)@.wf(),
    {
        let mut new = DownloadJob::new(id, url, output_path, connections, headers, now);
        match initial_status {
            Some(status) => {
                match &status {
                    JobStatus::Paused => new.send_control(JobControl::Pause),
                    _ => {},
                }
                new.status = status;
            },
            None => {},
        }
        if initial_total_size > 0 {
            new.set_total_size(initial_total_size);
        }
        if initial_downloaded > 0 {
            new.downloaded = initial_downloaded;
        }
        match initial_started_at {
            Some(t) => new.started_at = Some(t),
            None => {},
        }
        match initial_ended_at {
            Some(t) => new.ended_at = Some(t),
            None => {},
        }
        let ghost view = new@;
        let index: usize = self.jobs.len();
        self.jobs.push(new);
        self.job_index.insert(id, index);
        if self.next_id < id + 1 {
            self.next_id = id + 1;
        }
        proof {
            assert(self@.jobs =~= old(self)@.jobs.push(view));
            assert(self@.index =~= old(self)@.added(view).index);
        }
        ManagerEvent::JobsChanged
    }

    /// Pause the job `id`. Tells which job was signalled; the event is emitted in any case.
    pub fn pause(&mut self, id: JobId) -> (r: (Option<Signal>, ManagerEvent))
        requires
            old(self)@.wf(),
        ensures
            final(self)@ == old(self)@.signalled(id, JobControl::Pause),
            final(self)@.wf(),
            r.0 == (match old(self)@.controlled(id) {
                Some(at) => Some(Signal { position: at as usize, control: JobControl::Pause }),
                None => None,
            }),
    {
        match self.job_index.get(&id) {
            Some(index) => {
                let at: usize = *index;
                self.jobs[at].send_control(JobControl::Pause);
                assert(self@.jobs =~= old(self)@.signalled(id, JobControl::Pause).jobs);
                (
                    Some(Signal { position: at, control: JobControl::Pause }),
                    ManagerEvent::JobsChanged,
                )
            },
            None => (None, ManagerEvent::JobsChanged),
        }
    }

    /// Cancel the job `id`. Tells which job was signalled; nothing is emitted for a number that
    /// is not controlled.
    pub fn cancel(&mut self, id: JobId) -> (r: Option<(Option<Signal>, ManagerEvent)>)
        requires
            old(self)@.wf(),
        ensures
            final(self)@ == old(self)@.cancelled(id),
            final(self)@.wf(),
            r == (match old(self)@.controlled(id) {
                Some(at) => Some(
                    (
                        if old(self)@.jobs[at].status is Paused {
                            None
                        } else {
                            Some(Signal { position: at as usize, control: JobControl::Cancel })
                        },
                        ManagerEvent::JobsChanged,
                    ),
                ),
                None => None,
            }),
    {
        let at: usize = match self.job_index.get(&id) {
            Some(index) => *index,
            None => {
                return None;
            },
        };
        let is_paused: bool = match &self.jobs[at].status {
            JobStatus::Paused => true,
            _ => false,
        };
        let signal: Option<Signal> = if is_paused {
            self.jobs[at].status = JobStatus::Failed("Cancelled".to_owned());
            None
        } else {
            self.jobs[at].send_control(JobControl::Cancel);
            Some(Signal { position: at, control: JobControl::Cancel })
        };
        self.job_index.remove(&id);
        proof {
            assert(self@.jobs =~= old(self)@.cancelled(id).jobs);
            assert(self@.index =~= old(self)@.index.remove(id));
        }
        Some((signal, ManagerEvent::JobsChanged))
    }

    /// Everything a transfer needs to know about the job at `at`.
    fn launch_at(&self, at: usize) -> (r: Launch)
        requires
            at < self@.jobs.len(),
        ensures
            r@ == launch_of(self@.jobs[at as int], at as int),
    {
        let j: &DownloadJob = &self.jobs[at];
        Launch {
            position: at,
            id: j.id,
            url: j.url.clone(),
            output_path: j.output_path.clone(),
            connections: j.connections,
            headers: text::copy_pairs(&j.headers),
        }
    }

    /// Take up the paused job `id` again. Jobs that are not paused are left alone; the event is
    /// emitted in any case.
    pub fn resume(&mut self, id: JobId) -> (r: (Option<Launch>, ManagerEvent))
        requires
            old(self)@.wf(),
        ensures
            final(self)@ == old(self)@.resumed(id),
            final(self)@.wf(),
            match r.0 {
                Some(launch) => old(self)@.resumable(id) matches Some(at) && launch@ == launch_of(
                    old(self)@.jobs[at],
                    at,
                ),
                None => old(self)@.resumable(id) is None,
            },
    {
        let at: usize = match self.job_index.get(&id) {
            Some(index) => *index,
            None => {
                return (None, ManagerEvent::JobsChanged);
            },
        };
        let is_paused: bool = match &self.jobs[at].status {
            JobStatus::Paused => true,
            _ => false,
        };
        if !is_paused {
            return (None, ManagerEvent::JobsChanged);
        }
        self.jobs[at].send_control(JobControl::Run);
        self.jobs[at].status = JobStatus::Active;
        self.jobs[at].ended_at = None;
        assert(self@.jobs =~= old(self)@.resumed(id).jobs);
        (Some(self.launch_at(at)), ManagerEvent::JobsChanged)
    }

    /// The first position of a job with the number `id`.
    fn find(&self, id: JobId) -> (r: Option<usize>)
        ensures
            match r {
                Some(at) => self@.position(id) == Some(at as int) && at < self@.jobs.len(),
                None => self@.position(id) is None,
            },
    {
        let mut i: usize = 0;
        while i < self.jobs.len()
            invariant
                i <= self@.jobs.len(),
                self.jobs@.len() == self@.jobs.len(),
                position_from(self@.jobs, id, 0) == position_from(self@.jobs, id, i as int),
            decreases self.jobs@.len() - i,
        {
            assert(self@.jobs[i as int] == self.jobs@[i as int]@);
            if self.jobs[i].id == id {
                return Some(i);
            }
            i += 1;
        }
        None
    }

    /// Move the job `id` one place towards the front of the queue.
    pub fn move_up(&mut self, id: JobId)
        requires
            old(self)@.wf(),
        ensures
            final(self)@ == old(self)@.moved_up(id),
            final(self)@.wf(),
    {
        match self.find(id) {
            Some(at) => {
                if at > 0 {
                    let moved = self.jobs.remove(at);
                    self.jobs.insert(at - 1, moved);
                    let ghost jobs = job_views(self.jobs@);
                    proof {
                        assert(jobs =~= old(self)@.jobs.update(at - 1, old(self)@.jobs[at as int]).update(
                            at as int,
                            old(self)@.jobs[at - 1],
                        ));
                    }
                    self.job_index.clear();
                    let mut i: usize = 0;
                    while i < self.jobs.len()
                        invariant
                            i <= self.jobs@.len(),
                            jobs == job_views(self.jobs@),
                            self.job_index@ == index_below(jobs, i as nat),
                            self.next_id == old(self)@.next_id,
                            self.max_concurrent == old(self)@.max_concurrent,
                            self.running == old(self)@.running,
                            self.runner_running == old(self)@.runner_running,
                        decreases self.jobs@.len() - i,
                    {
                        let id_here: JobId = self.jobs[i].id;
                        self.job_index.insert(id_here, i);
                        i += 1;
                    }
                    proof {
                        let size: usize = self.jobs.len();
                        lemma_index_below(jobs, jobs.len());
                        assert forall|k: int| 0 <= k < jobs.len() implies (#[trigger] jobs[k]).id
                            < self.next_id by {
                            assert(old(self)@.jobs[at as int].id < old(self)@.next_id);
                            assert(old(self)@.jobs[at - 1].id < old(self)@.next_id);
                            assert(old(self)@.jobs[k].id < old(self)@.next_id);
                        }
                    }
                }
            },
            None => {},
        }
    }

    /// Take up the next waiting job, the one longest in the queue. None is left where this gives
    /// none.
    pub fn launch_next(&mut self, now: i64) -> (r: Option<Launch>)
        requires
            old(self)@.wf(),
        ensures
            final(self)@ == old(self)@.launched(now),
            final(self)@.wf(),
            match r {
                Some(launch) => old(self)@.waiting() matches Some(at) && launch@ == launch_of(
                    old(self)@.jobs[at],
                    at,
                ),
                None => old(self)@.waiting() is None,
            },
    {
        let mut i: usize = 0;
        while i < self.jobs.len()
            invariant
                i <= self.jobs@.len(),
                *self == *old(self),
                self@.wf(),
                waiting_from(self@.jobs, 0) == waiting_from(self@.jobs, i as int),
            decreases self.jobs@.len() - i,
        {
            assert(self@.jobs[i as int] == self.jobs@[i as int]@);
            let waits: bool = match &self.jobs[i].status {
                JobStatus::Pending => true,
                _ => false,
            };
            if waits {
                self.jobs[i].status = JobStatus::Active;
                self.jobs[i].ended_at = None;
                if self.jobs[i].started_at.is_none() {
                    self.jobs[i].started_at = Some(now);
                }
                assert(self@.jobs =~= old(self)@.launched(now).jobs);
                return Some(self.launch_at(i));
            }
            i += 1;
        }
        None
    }

    /// Puts the first job of the number `id` in another status.
    fn set_status(&mut self, id: JobId, status: JobStatus, now: i64)
        requires
            old(self)@.wf(),
        ensures
            final(self)@ == old(self)@.with_status(id, status@, now),
            final(self)@.wf(),
    {
        match self.find(id) {
            Some(at) => {
                self.jobs[at].set_status(status, now);
                assert(self@.jobs =~= old(self)@.with_status(id, status@, now).jobs);
            },
            None => {},
        }
    }

    /// Remove job from index map only. Job stays in the queue (visible until session ends).
    fn remove_from_index(&mut self, id: JobId)
        requires
            old(self)@.wf(),
        ensures
            final(self)@ == old(self)@.released(id),
            final(self)@.wf(),
    {
        self.job_index.remove(&id);
        assert(self@.index =~= old(self)@.index.remove(id));
    }

    /// What is to be done when the job `id` is taken up; with `persist`, the database is told.
    pub fn announce_task(&self, id: JobId, persist: bool) -> (r: Vec<Effect>)
        ensures
            effects(r@) == start_effects(id, persist),
    {
        let mut todo: Vec<Effect> = Vec::new();
        if persist {
            todo.push(
                Effect::Persist {
                    id: id as i64,
                    status: "Active".to_owned(),
                    downloaded: 0,
                    total_size: 0,
                },
            );
        }
        todo.push(Effect::Emit(ManagerEvent::JobsChanged));
        assert(effects(todo@) =~= start_effects(id, persist));
        todo
    }

    /// The transfer of the job `id` is about to begin, under the control signal `control`. It
    /// begins only where a slot is free; a cancelled job fails instead. With `persist`, the database
    /// is told of that.
    pub fn begin_task(&mut self, id: JobId, control: JobControl, persist: bool, now: i64) -> (r: Begin)
        requires
            old(self)@.wf(),
        ensures
            final(self)@.wf(),
            final(self)@ == old(self)@.begun(id, control, now),
            match r {
                Begin::Go => begins(control) && old(self)@.slot_free(),
                Begin::Full => begins(control) && !old(self)@.slot_free(),
                Begin::Refused(todo) => !begins(control) && effects(todo@) == refusal_effects(
                    id,
                    persist,
                ),
            },
    {
        match control {
            JobControl::Cancel => {
                self.set_status(id, JobStatus::Failed("Cancelled".to_owned()), now);
                self.remove_from_index(id);
                let mut todo: Vec<Effect> = Vec::new();
                todo.push(Effect::Emit(ManagerEvent::JobsChanged));
                if persist {
                    todo.push(
                        Effect::Persist {
                            id: id as i64,
                            status: "Cancelled".to_owned(),
                            downloaded: 0,
                            total_size: 0,
                        },
                    );
                }
                assert(effects(todo@) =~= refusal_effects(id, persist));
                Begin::Refused(todo)
            },
            _ => {
                if self.running < self.max_concurrent {
                    self.running = self.running + 1;
                    Begin::Go
                } else {
                    Begin::Full
                }
            },
        }
    }

    /// A transfer has broken off without an outcome. Only its slot is given back.
    pub fn abandon_task(&mut self)
        requires
            old(self)@.wf(),
        ensures
            final(self)@.wf(),
            final(self)@ == old(self)@.freed(),
    {
        if self.running > 0 {
            self.running = self.running - 1;
        }
    }

    /// The transfer of the job `id` ended; `downloaded` and `total_size` are what it had reached.
    /// Gives what is to be done next; with `persist`, the database is told.
    pub fn finish_task(
        &mut self,
        id: JobId,
        outcome: TaskOutcome,
        downloaded: u64,
        total_size: u64,
        persist: bool,
        now: i64,
    ) -> (r: Vec<Effect>)
        requires
            old(self)@.wf(),
        ensures
            final(self)@.wf(),
            final(self)@ == old(self)@.finished(id, outcome@, now),
            effects(r@) == end_effects(id, outcome@, downloaded, total_size, persist),
    {
        self.abandon_task();
        let mut todo: Vec<Effect> = Vec::new();
        todo.push(Effect::Emit(ManagerEvent::JobsChanged));
        let row: Effect;
        match outcome {
            TaskOutcome::Completed { downloaded: got, total_size: size } => {
                self.set_status(id, JobStatus::Done, now);
                match self.find(id) {
                    Some(at) => {
                        let ghost before = self@;
                        self.jobs[at].set_total_size(size);
                        assert(self@.jobs =~= before.with_total(id, size).jobs);
                    },
                    None => {},
                }
                self.remove_from_index(id);
                row = Effect::Persist {
                    id: id as i64,
                    status: "Done".to_owned(),
                    downloaded: got,
                    total_size: size,
                };
            },
            TaskOutcome::Stopped { message } => {
                if text::contains_text(message.as_str(), "Paused") {
                    self.set_status(id, JobStatus::Paused, now);
                    row = Effect::Persist {
                        id: id as i64,
                        status: "Paused".to_owned(),
                        downloaded,
                        total_size,
                    };
                } else if text::contains_text(message.as_str(), "Cancelled") {
                    self.set_status(id, JobStatus::Failed("Cancelled".to_owned()), now);
                    self.remove_from_index(id);
                    row = Effect::Persist {
                        id: id as i64,
                        status: "Cancelled".to_owned(),
                        downloaded: 0,
                        total_size: 0,
                    };
                } else {
                    let mut status = "Failed: ".to_owned();
                    status.append(message.as_str());
                    self.set_status(id, JobStatus::Failed(message), now);
                    self.remove_from_index(id);
                    row = Effect::Persist {
                        id: id as i64,
                        status,
                        downloaded: 0,
                        total_size: 0,
                    };
                }
            },
        }
        if persist {
            todo.push(row);
        }
        assert(effects(todo@) =~= end_effects(id, outcome@, downloaded, total_size, persist));
        todo
    }

    /// Claims the run loop. There is only one at a time.
    pub fn try_start_runner(&mut self) -> (r: bool)
        requires
            old(self)@.wf(),
        ensures
            r == !old(self)@.runner_running,
            final(self)@ == (QueueView { runner_running: true, ..old(self)@ }),
            final(self)@.wf(),
    {
        let free: bool = !self.runner_running;
        self.runner_running = true;
        free
    }

    /// Gives the run loop back.
    pub fn stop_runner(&mut self)
        requires
            old(self)@.wf(),
        ensures
            final(self)@ == (QueueView { runner_running: false, ..old(self)@ }),
            final(self)@.wf(),
    {
        self.runner_running = false;
    }

    /// Notes how far the transfer of the job at `position` has come.
    pub fn record_progress(&mut self, position: usize, downloaded: u64, total_size: u64)
        requires
            old(self)@.wf(),
            position < old(self)@.jobs.len(),
        ensures
            final(self)@ == old(self)@.replaced(
                position as int,
                job::JobView {
                    downloaded,
                    live_total: total_size,
                    ..old(self)@.jobs[position as int]
                },
            ),
            final(self)@.wf(),
    {
        self.jobs[position].downloaded = downloaded;
        self.jobs[position].live_total = total_size;
        assert(self@.jobs =~= old(self)@.jobs.update(
            position as int,
            job::JobView {
                downloaded,
                live_total: total_size,
                ..old(self)@.jobs[position as int]
            },
        ));
    }

    /// Notes how many chunks of the job at `position` are completed.
    pub fn record_chunks(&mut self, position: usize, chunks_done: u8)
        requires
            old(self)@.wf(),
            position < old(self)@.jobs.len(),
        ensures
            final(self)@ == old(self)@.replaced(
                position as int,
                job::JobView { chunks_done, ..old(self)@.jobs[position as int] },
            ),
            final(self)@.wf(),
    {
        self.jobs[position].chunks_done = chunks_done;
        assert(self@.jobs =~= old(self)@.jobs.update(
            position as int,
            job::JobView { chunks_done, ..old(self)@.jobs[position as int] },
        ));
    }

    /// A snapshot of every job, in the order of the queue, with the speed of running jobs sampled.
    pub fn job_summaries(&mut self, clock: &Clock) -> (r: Vec<JobSummary>)
        requires
            old(self)@.wf(),
        ensures
            final(self)@ == old(self)@.sampled(clock.mono),
            final(self)@.wf(),
            message::summaries(r@) == Seq::new(
                old(self)@.jobs.len(),
                |i: int| summary_of(final(self)@.jobs[i], *clock),
            ),
    {
        let mut r: Vec<JobSummary> = Vec::new();
        let ghost target = self@.sampled(clock.mono);
        let mut i: usize = 0;
        while i < self.jobs.len()
            invariant
                i <= self.jobs@.len() == target.jobs.len(),
                target == old(self)@.sampled(clock.mono),
                self@ == (QueueView { jobs: self@.jobs, ..target }),
                forall|k: int| 0 <= k < i ==> (#[trigger] self.jobs@[k])@ == target.jobs[k],
                forall|k: int|
                    i <= k < self.jobs@.len() ==> (#[trigger] self.jobs@[k])@ == old(self)@.jobs[k],
                r@.len() == i,
                forall|k: int| 0 <= k < i ==> (#[trigger] r@[k])@ == summary_of(target.jobs[k], *clock),
            decreases self.jobs@.len() - i,
        {
            let ghost before = self.jobs@;
            let active: bool = match &self.jobs[i].status {
                JobStatus::Active => true,
                _ => false,
            };
            if active {
                self.jobs[i].update_speed(clock.mono);
            }
            assert(self.jobs@[i as int]@ == target.jobs[i as int]);
            let j: &DownloadJob = &self.jobs[i];
            let speed: u64 = j.speed_bps();
            let summary = JobSummary {
                id: j.id,
                url: j.url.clone(),
                output_path: j.output_path.clone(),
                status: j.status.to_text(),
                total_size: j.total_size_loaded(),
                downloaded: j.bytes_downloaded(),
                speed_bps: if active && speed > 0 {
                    Some(speed)
                } else {
                    None
                },
                chunks_total: j.connections,
                chunks_done: j.chunks_done,
                started_at: match j.started_at {
                    Some(t) => Some(clock.epoch_of(t)),
                    None => None,
                },
                ended_at: match j.ended_at {
                    Some(t) => Some(clock.epoch_of(t)),
                    None => None,
                },
                added_at: None,
                error_msg: None,
            };
            assert(summary@ == summary_of(target.jobs[i as int], *clock));
            r.push(summary);
            i += 1;
        }
        proof {
            assert(self@.jobs =~= target.jobs);
            assert(message::summaries(r@) =~= Seq::new(
                old(self)@.jobs.len(),
                |i: int| summary_of(self@.jobs[i], *clock),
            ));
        }
        r
    }

    /// Whether the URL of every job has a place in the table of `print_status`.
    pub fn can_print(&self) -> (r: bool)
        ensures
            r == forall|i: int|
                0 <= i < self@.jobs.len() ==> listing::fits_column((#[trigger] self@.jobs[i]).url),
    {
        let mut i: usize = 0;
        while i < self.jobs.len()
            invariant
                i <= self.jobs@.len() == self@.jobs.len(),
                forall|k: int|
                    0 <= k < i ==> listing::fits_column((#[trigger] self@.jobs[k]).url),
            decreases self.jobs@.len() - i,
        {
            assert(self@.jobs[i as int] == self.jobs@[i as int]@);
            if !listing::can_shorten(self.jobs[i].url.as_str()) {
                return false;
            }
            i += 1;
        }
        true
    }

    /// The queue as a table; `percents` holds the percentage of each job.
    pub fn print_status(&self, percents: &Vec<String>) -> (r: String)
        requires
            percents@.len() == self@.jobs.len(),
            forall|i: int|
                0 <= i < self@.jobs.len() ==> listing::fits_column((#[trigger] self@.jobs[i]).url),
        ensures
            r@ == status_table(self@.jobs, text::texts(percents@)),
    {
        if self.jobs.len() == 0 {
            return "Queue is empty.\n".to_owned();
        }
        let mut rows = String::new();
        let mut i: usize = 0;
        while i < self.jobs.len()
            invariant
                i <= self.jobs@.len() == self@.jobs.len() == percents@.len(),
                forall|k: int|
                    0 <= k < self@.jobs.len() ==> listing::fits_column(
                        (#[trigger] self@.jobs[k]).url,
                    ),
                rows@ == status_rows(self@.jobs, text::texts(percents@), i as nat),
            decreases self.jobs@.len() - i,
        {
            let j: &DownloadJob = &self.jobs[i];
            assert(self@.jobs[i as int] == j@);
            rows.append(
                listing::row_text(
                    j.id,
                    j.url.as_str(),
                    j.status.to_text().as_str(),
                    percents[i].as_str(),
                ).as_str(),
            );
            i += 1;
        }
        let mut r = listing::head_text(10, 80);
        r.append(rows.as_str());
        r.append("\n");
        r
    }
}

} // verus!
