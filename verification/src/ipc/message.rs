//! Messages between the daemon and its clients.

use vstd::prelude::*;
use vstd::string::*;

use crate::text;

verus! {

/// Messages sent FROM the CLI client TO the daemon.
#[derive(Debug)]
pub enum Request {
    /// Add one or more URLs to the queue.
    Add {
        urls: Vec<String>,
        output_dir: Option<String>,
        connections: u8,
        headers: Vec<(String, String)>,
    },
    /// Pause a running job.
    Pause { id: u64 },
    /// Resume a paused job.
    Resume { id: u64 },
    /// Cancel a job (running or pending).
    Cancel { id: u64 },
    /// Get current queue status. If all=true, include Done/Failed/Cancelled.
    Status { all: bool },
    /// Subscribe to real-time job updates (keeps connection open).
    Subscribe { all: bool },
    /// Unsubscribe from real-time updates.
    Unsubscribe,
    /// Shut the daemon down cleanly.
    Shutdown,
    /// Fetch completed job history.
    History { limit: u32 },
    /// Prune old history entries.
    Prune { days: u32, statuses: Vec<String>, dry_run: bool },
}

/// What a `Request` says.
pub enum RequestView {
    Add {
        urls: Seq<Seq<char>>,
        output_dir: Option<Seq<char>>,
        connections: u8,
        headers: Seq<(Seq<char>, Seq<char>)>,
    },
    Pause { id: u64 },
    Resume { id: u64 },
    Cancel { id: u64 },
    Status { all: bool },
    Subscribe { all: bool },
    Unsubscribe,
    Shutdown,
    History { limit: u32 },
    Prune { days: u32, statuses: Seq<Seq<char>>, dry_run: bool },
}

impl View for Request {
    type V = RequestView;

    open spec fn view(&self) -> RequestView {
        match *self {
            Request::Add { urls, output_dir, connections, headers } => RequestView::Add {
                urls: text::texts(urls@),
                output_dir: text::text_opt(output_dir),
                connections,
                headers: text::text_pairs(headers@),
            },
            Request::Pause { id } => RequestView::Pause { id },
            Request::Resume { id } => RequestView::Resume { id },
            Request::Cancel { id } => RequestView::Cancel { id },
            Request::Status { all } => RequestView::Status { all },
            Request::Subscribe { all } => RequestView::Subscribe { all },
            Request::Unsubscribe => RequestView::Unsubscribe,
            Request::Shutdown => RequestView::Shutdown,
            Request::History { limit } => RequestView::History { limit },
            Request::Prune { days, statuses, dry_run } => RequestView::Prune {
                days,
                statuses: text::texts(statuses@),
                dry_run,
            },
        }
    }
}

/// Messages sent FROM the daemon BACK to the CLI client.
#[derive(Debug)]
pub enum Response {
    /// Job(s) successfully queued. Returns their IDs.
    Queued { ids: Vec<u64> },
    /// Generic success (pause, cancel, shutdown).
    Success { message: String },
    /// Current list of all jobs in the queue.
    JobList { jobs: Vec<JobSummary> },
    /// Confirmation of subscription.
    Subscribed,
    /// Push update for subscribed clients.
    Update { jobs: Vec<JobSummary> },
    /// Results of a prune operation.
    PruneResult { count: u64, message: String },
    /// Something went wrong.
    Error { message: String },
}

/// What a `Response` says.
pub enum ResponseView {
    Queued { ids: Seq<u64> },
    Success { message: Seq<char> },
    JobList { jobs: Seq<SummaryView> },
    Subscribed,
    Update { jobs: Seq<SummaryView> },
    PruneResult { count: u64, message: Seq<char> },
    Error { message: Seq<char> },
}

impl View for Response {
    type V = ResponseView;

    open spec fn view(&self) -> ResponseView {
        match *self {
            Response::Queued { ids } => ResponseView::Queued { ids: ids@ },
            Response::Success { message } => ResponseView::Success { message: message@ },
            Response::JobList { jobs } => ResponseView::JobList { jobs: summaries(jobs@) },
            Response::Subscribed => ResponseView::Subscribed,
            Response::Update { jobs } => ResponseView::Update { jobs: summaries(jobs@) },
            Response::PruneResult { count, message } => ResponseView::PruneResult {
                count,
                message: message@,
            },
            Response::Error { message } => ResponseView::Error { message: message@ },
        }
    }
}

/// Snapshot of a single job's state — safe to serialize and send over socket.
///
/// The share of the file that is downloaded follows from `downloaded` and `total_size`.
#[derive(Debug)]
pub struct JobSummary {
    pub id: u64,
    pub url: String,
    pub output_path: String,
    pub status: String,
    pub total_size: u64,
    pub downloaded: u64,
    pub speed_bps: Option<u64>,
    pub chunks_total: u8,
    pub chunks_done: u8,
    /// epoch seconds when download started
    pub started_at: Option<i64>,
    /// epoch seconds when download ended (paused/completed/failed); None if still active
    pub ended_at: Option<i64>,
    pub added_at: Option<i64>,
    pub error_msg: Option<String>,
}

/// What a `JobSummary` says.
pub struct SummaryView {
    pub id: u64,
    pub url: Seq<char>,
    pub output_path: Seq<char>,
    pub status: Seq<char>,
    pub total_size: u64,
    pub downloaded: u64,
    pub speed_bps: Option<u64>,
    pub chunks_total: u8,
    pub chunks_done: u8,
    pub started_at: Option<i64>,
    pub ended_at: Option<i64>,
    pub added_at: Option<i64>,
    pub error_msg: Option<Seq<char>>,
}

impl View for JobSummary {
    type V = SummaryView;

    open spec fn view(&self) -> SummaryView {
        SummaryView {
            id: self.id,
            url: self.url@,
            output_path: self.output_path@,
            status: self.status@,
            total_size: self.total_size,
            downloaded: self.downloaded,
            speed_bps: self.speed_bps,
            chunks_total: self.chunks_total,
            chunks_done: self.chunks_done,
            started_at: self.started_at,
            ended_at: self.ended_at,
            added_at: self.added_at,
            error_msg: text::text_opt(self.error_msg),
        }
    }
}

/// What a sequence of summaries says.
pub open spec fn summaries(v: Seq<JobSummary>) -> Seq<SummaryView> {
    Seq::new(v.len(), |i: int| v[i]@)
}

impl Clone for JobSummary {
    fn clone(&self) -> (r: JobSummary)
        ensures
            r@ == self@,
    {
        JobSummary {
            id: self.id,
            url: self.url.clone(),
            output_path: self.output_path.clone(),
            status: self.status.clone(),
            total_size: self.total_size,
            downloaded: self.downloaded,
            speed_bps: self.speed_bps,
            chunks_total: self.chunks_total,
            chunks_done: self.chunks_done,
            started_at: self.started_at,
            ended_at: self.ended_at,
            added_at: self.added_at,
            error_msg: match &self.error_msg {
                Some(m) => Some(m.clone()),
                None => None,
            },
        }
    }
}

/// A copy of `v`.
pub fn copy_summaries(v: &Vec<JobSummary>) -> (r: Vec<JobSummary>)
    ensures
        summaries(r@) == summaries(v@),
{
    let mut r: Vec<JobSummary> = Vec::new();
    let mut i: usize = 0;
    while i < v.len()
        invariant
            i <= v@.len(),
            r@.len() == i,
            forall|j: int| 0 <= j < i ==> (#[trigger] r@[j])@ == v@[j]@,
        decreases v@.len() - i,
    {
        r.push(v[i].clone());
        i += 1;
    }
    assert(summaries(r@) =~= summaries(v@));
    r
}

fn same_number(a: Option<u64>, b: Option<u64>) -> (r: bool)
    ensures
        r == (a == b),
{
    match (a, b) {
        (Some(x), Some(y)) => x == y,
        (None, None) => true,
        _ => false,
    }
}

fn same_second(a: Option<i64>, b: Option<i64>) -> (r: bool)
    ensures
        r == (a == b),
{
    match (a, b) {
        (Some(x), Some(y)) => x == y,
        (None, None) => true,
        _ => false,
    }
}

fn same_note(a: &Option<String>, b: &Option<String>) -> (r: bool)
    ensures
        r == (text::text_opt(*a) == text::text_opt(*b)),
{
    match (a, b) {
        (Some(x), Some(y)) => text::same_text(x.as_str(), y.as_str()),
        (None, None) => true,
        _ => false,
    }
}

impl PartialEq for JobSummary {
    fn eq(&self, other: &JobSummary) -> (r: bool) {
        self.id == other.id && text::same_text(self.url.as_str(), other.url.as_str())
            && text::same_text(self.output_path.as_str(), other.output_path.as_str())
            && text::same_text(self.status.as_str(), other.status.as_str()) && self.total_size
            == other.total_size && self.downloaded == other.downloaded && same_number(
            self.speed_bps,
            other.speed_bps,
        ) && self.chunks_total == other.chunks_total && self.chunks_done == other.chunks_done
            && same_second(self.started_at, other.started_at) && same_second(
            self.ended_at,
            other.ended_at,
        ) && same_second(self.added_at, other.added_at) && same_note(
            &self.error_msg,
            &other.error_msg,
        )
    }
}

impl vstd::std_specs::cmp::PartialEqSpecImpl for JobSummary {
    open spec fn obeys_eq_spec() -> bool {
        true
    }

    open spec fn eq_spec(&self, other: &JobSummary) -> bool {
        self@ == other@
    }
}

/// Whether two lists of snapshots say the same.
pub fn same_summaries(a: &Vec<JobSummary>, b: &Vec<JobSummary>) -> (r: bool)
    ensures
        r == (summaries(a@) == summaries(b@)),
{
    if a.len() != b.len() {
        assert(summaries(a@).len() != summaries(b@).len());
        return false;
    }
    let mut i: usize = 0;
    while i < a.len()
        invariant
            a@.len() == b@.len(),
            i <= a@.len(),
            forall|j: int| 0 <= j < i ==> (#[trigger] a@[j])@ == b@[j]@,
        decreases a@.len() - i,
    {
        if a[i] != b[i] {
            assert(summaries(a@)[i as int] != summaries(b@)[i as int]);
            return false;
        }
        i += 1;
    }
    assert(summaries(a@) =~= summaries(b@));
    true
}

} // verus!
