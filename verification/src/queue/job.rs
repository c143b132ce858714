//! Job state machine: `DownloadJob`, `JobStatus`, and the `JobControl` signals.

use vstd::prelude::*;
use vstd::string::*;

use crate::clock;
use crate::text;

verus! {

/// Unique job identifier.
pub type JobId = u64;

/// What a `JobStatus` says.
pub enum StatusView {
    Pending,
    Active,
    Paused,
    Done,
    Failed(Seq<char>),
}

/// Where a job stands.
#[derive(Debug)]
pub enum JobStatus {
    Pending,
    Active,
    Paused,
    Done,
    Failed(String),
}

impl View for JobStatus {
    type V = StatusView;

    open spec fn view(&self) -> StatusView {
        match self {
            JobStatus::Pending => StatusView::Pending,
            JobStatus::Active => StatusView::Active,
            JobStatus::Paused => StatusView::Paused,
            JobStatus::Done => StatusView::Done,
            JobStatus::Failed(e) => StatusView::Failed(e@),
        }
    }
}

impl StatusView {
    /// How the status is written.
    pub open spec fn text(self) -> Seq<char> {
        match self {
            StatusView::Pending => "Pending"@,
            StatusView::Active => "Active"@,
            StatusView::Paused => "Paused"@,
            StatusView::Done => "Done"@,
            StatusView::Failed(e) => "Failed: "@ + e,
        }
    }

    /// Whether a job in this status has come to an end for good.
    pub open spec fn terminal(self) -> bool {
        self is Done || self is Failed
    }

    /// Whether a job in this status no longer runs.
    pub open spec fn stopped(self) -> bool {
        self is Paused || self is Done || self is Failed
    }
}

impl JobStatus {
    /// How the status is written.
    pub fn to_text(&self) -> (r: String)
        ensures
            r@ == self@.text(),
    {
        match self {
            JobStatus::Pending => "Pending".to_owned(),
            JobStatus::Active => "Active".to_owned(),
            JobStatus::Paused => "Paused".to_owned(),
            JobStatus::Done => "Done".to_owned(),
            JobStatus::Failed(e) => {
                let mut r = "Failed: ".to_owned();
                r.append(e.as_str());
                r
            },
        }
    }
}

impl Clone for JobStatus {
    fn clone(&self) -> (r: JobStatus)
        ensures
            r@ == self@,
    {
        match self {
            JobStatus::Pending => JobStatus::Pending,
            JobStatus::Active => JobStatus::Active,
            JobStatus::Paused => JobStatus::Paused,
            JobStatus::Done => JobStatus::Done,
            JobStatus::Failed(e) => JobStatus::Failed(e.clone()),
        }
    }
}

impl PartialEq for JobStatus {
    fn eq(&self, other: &JobStatus) -> (r: bool) {
        match (self, other) {
            (JobStatus::Pending, JobStatus::Pending) => true,
            (JobStatus::Active, JobStatus::Active) => true,
            (JobStatus::Paused, JobStatus::Paused) => true,
            (JobStatus::Done, JobStatus::Done) => true,
            (JobStatus::Failed(a), JobStatus::Failed(b)) => text::same_text(a.as_str(), b.as_str()),
            _ => false,
        }
    }
}

impl vstd::std_specs::cmp::PartialEqSpecImpl for JobStatus {
    open spec fn obeys_eq_spec() -> bool {
        true
    }

    open spec fn eq_spec(&self, other: &JobStatus) -> bool {
        self@ == other@
    }
}

/// Control signals sent to a running job.
#[derive(Debug, Clone, Copy, PartialEq, Eq, Structural)]
pub enum JobControl {
    Run,
    Pause,
    Cancel,
}

/// What a `DownloadJob` holds.
pub struct JobView {
    pub id: JobId,
    pub url: Seq<char>,
    pub output_path: Seq<char>,
    pub connections: u8,
    pub total_size: u64,
    pub live_total: u64,
    pub headers: Seq<(Seq<char>, Seq<char>)>,
    pub downloaded: u64,
    pub chunks_done: u8,
    pub last_downloaded: u64,
    pub last_sample_time: i64,
    pub cached_speed: u64,
    pub status: StatusView,
    pub started_at: Option<i64>,
    pub ended_at: Option<i64>,
    pub control: JobControl,
}

/// A single download job. Moments are readings of the monotonic clock.
#[derive(Debug)]
pub struct DownloadJob {
    pub id: JobId,
    pub url: String,
    pub output_path: String,
    pub connections: u8,
    pub total_size: u64,
    /// The size of the file as the running transfer knows it.
    pub live_total: u64,
    pub headers: Vec<(String, String)>,
    /// Bytes downloaded so far.
    pub downloaded: u64,
    /// Chunks completed.
    pub chunks_done: u8,
    /// Bytes at the last speed sample.
    pub last_downloaded: u64,
    /// Moment of the last speed sample.
    pub last_sample_time: i64,
    /// Bytes per second between the last two samples.
    pub cached_speed: u64,
    /// Current status.
    pub status: JobStatus,
    /// When download started (set when status becomes Active)
    pub started_at: Option<i64>,
    /// When download ended (set on pause / completion / failure)
    pub ended_at: Option<i64>,
    /// The last signal sent to the job.
    pub control: JobControl,
}

impl View for DownloadJob {
    type V = JobView;

    open spec fn view(&self) -> JobView {
        JobView {
            id: self.id,
            url: self.url@,
            output_path: self.output_path@,
            connections: self.connections,
            total_size: self.total_size,
            live_total: self.live_total,
            headers: text::text_pairs(self.headers@),
            downloaded: self.downloaded,
            chunks_done: self.chunks_done,
            last_downloaded: self.last_downloaded,
            last_sample_time: self.last_sample_time,
            cached_speed: self.cached_speed,
            status: self.status@,
            started_at: self.started_at,
            ended_at: self.ended_at,
            control: self.control,
        }
    }
}

/// A job that was just queued.
pub open spec fn queued(
    id: JobId,
    url: Seq<char>,
    output_path: Seq<char>,
    connections: u8,
    headers: Seq<(Seq<char>, Seq<char>)>,
    now: i64,
) -> JobView {
    JobView {
        id,
        url,
        output_path,
        connections,
        total_size: 0,
        live_total: 0,
        headers,
        downloaded: 0,
        chunks_done: 0,
        last_downloaded: 0,
        last_sample_time: now,
        cached_speed: 0,
        status: StatusView::Pending,
        started_at: None,
        ended_at: None,
        control: JobControl::Run,
    }
}

impl JobView {
    /// The job after a speed sample at the moment `now`: at least a second after the last one,
    /// the bytes since then are spread over the seconds since then.
    pub open spec fn sampled(self, now: i64) -> JobView {
        let secs = clock::elapsed(now as int, self.last_sample_time as int) / 1_000_000_000;
        if secs >= 1 {
            JobView {
                cached_speed: if self.downloaded > self.last_downloaded {
                    ((self.downloaded - self.last_downloaded) / secs) as u64
                } else {
                    self.cached_speed
                },
                last_downloaded: self.downloaded,
                last_sample_time: now,
                ..self
            }
        } else {
            self
        }
    }

    /// The job in another status; the moment is noted where it stops running.
    pub open spec fn with_status(self, status: StatusView, now: i64) -> JobView {
        JobView {
            status,
            ended_at: if status.stopped() {
                Some(now)
            } else {
                self.ended_at
            },
            ..self
        }
    }
}

impl DownloadJob {
    /// A job that was just queued.
    pub fn new(
        id: JobId,
        url: String,
        output_path: String,
        connections: u8,
        headers: Vec<(String, String)>,
        now: i64,
    ) -> (r: DownloadJob)
        ensures
            r@ == queued(id, url@, output_path@, connections, text::text_pairs(headers@), now),
    {
        DownloadJob {
            id,
            url,
            output_path,
            connections,
            total_size: 0,
            live_total: 0,
            headers,
            downloaded: 0,
            chunks_done: 0,
            last_downloaded: 0,
            last_sample_time: now,
            cached_speed: 0,
            status: JobStatus::Pending,
            started_at: None,
            ended_at: None,
            control: JobControl::Run,
        }
    }

    /// Bytes downloaded so far.
    pub fn bytes_downloaded(&self) -> (r: u64)
        ensures
            r == self@.downloaded,
    {
        self.downloaded
    }

    /// The size of the file as the running transfer knows it.
    pub fn total_size_loaded(&self) -> (r: u64)
        ensures
            r == self@.live_total,
    {
        self.live_total
    }

    /// Set the total file size (called after probe).
    pub fn set_total_size(&mut self, size: u64)
        ensures
            final(self)@ == (JobView { total_size: size, live_total: size, ..old(self)@ }),
    {
        self.total_size = size;
        self.live_total = size;
    }

    /// Update speed calculation — call periodically.
    pub fn update_speed(&mut self, now: i64)
        ensures
            final(self)@ == old(self)@.sampled(now),
    {
        let current: u64 = self.downloaded;
        let secs: u64 = clock::elapsed_secs(now, self.last_sample_time);
        if secs >= 1 {
            if current > self.last_downloaded {
                self.cached_speed = (current - self.last_downloaded) / secs;
            }
            self.last_sample_time = now;
            self.last_downloaded = current;
        }
    }

    /// Get current speed in bytes per second.
    pub fn speed_bps(&self) -> (r: u64)
        ensures
            r == self@.cached_speed,
    {
        self.cached_speed
    }

    /// Send a control signal to the job.
    pub fn send_control(&mut self, signal: JobControl)
        ensures
            final(self)@ == (JobView { control: signal, ..old(self)@ }),
    {
        self.control = signal;
    }

    /// Puts the job in another status.
    pub fn set_status(&mut self, status: JobStatus, now: i64)
        ensures
            final(self)@ == old(self)@.with_status(status@, now),
    {
        match &status {
            JobStatus::Paused | JobStatus::Done | JobStatus::Failed(_) => {
                self.ended_at = Some(now);
            },
            _ => {},
        }
        self.status = status;
    }
}

/// Different statuses are written differently, so that the text tells them apart.
pub proof fn law_status_text_tells_statuses_apart(a: StatusView, b: StatusView)
    requires
        a.text() == b.text(),
    ensures
        a == b,
{
    reveal_strlit("Pending");
    reveal_strlit("Active");
    reveal_strlit("Paused");
    reveal_strlit("Done");
    reveal_strlit("Failed: ");
    assert("Pending"@[0] == 'P' && "Pending"@[1] == 'e');
    assert("Paused"@[0] == 'P' && "Paused"@[1] == 'a');
    assert("Done"@[0] == 'D' && "Active"@[0] == 'A');
    if a is Failed && b is Failed {
        let x = a->Failed_0;
        let y = b->Failed_0;
        assert(a.text().skip(8) =~= x);
        assert(b.text().skip(8) =~= y);
        assert(x == y);
    } else if a is Failed {
        assert(a.text()[0] == 'F');
        assert(b.text()[0] == 'F');
    } else if b is Failed {
        assert(b.text()[0] == 'F');
        assert(a.text()[0] == 'F');
    } else {
        assert(a.text()[0] == b.text()[0]);
        assert(a.text()[1] == b.text()[1]);
    }
}

} // verus!
