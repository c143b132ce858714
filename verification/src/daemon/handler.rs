//! Requests: what each one does to the queue, what it asks of the database, and its answer.

use vstd::prelude::*;
use vstd::string::*;

use crate::clock::Clock;
use crate::db::schema;
use crate::ipc::message;
use crate::ipc::message::{JobSummary, Request, Response};
use crate::paths;
use crate::queue::job;
use crate::queue::job::JobControl;
use crate::queue::manager;
use crate::queue::manager::{Effect, Launch, ManagerEvent, QueueManager, Signal};
use crate::text;
use crate::utils;

verus! {

/// How a request goes on.
#[derive(Debug)]
pub enum Action {
    /// The request is carried out.
    Answer(Answer),
    /// Jobs are to be inserted into the database, one after the other.
    Insert(AddJobs),
    /// The history is to be read; `history_response` makes the answer.
    ReadHistory { limit: u32 },
    /// Rows are to be removed from the history by this statement, or none where there is no
    /// statement; `prune_response` makes the answer.
    PruneHistory { statement: Option<String> },
    /// Rows of the history are only to be counted, by this statement, or there are none where there
    /// is no statement; `prune_response` makes the answer.
    CountHistory { statement: Option<String> },
}

/// What an `Action` says.
pub enum ActionView {
    Answer(AnswerView),
    Insert(AddView),
    ReadHistory { limit: u32 },
    PruneHistory { statement: Option<Seq<char>> },
    CountHistory { statement: Option<Seq<char>> },
}

impl View for Action {
    type V = ActionView;

    open spec fn view(&self) -> ActionView {
        match *self {
            Action::Answer(a) => ActionView::Answer(a@),
            Action::Insert(jobs) => ActionView::Insert(jobs@),
            Action::ReadHistory { limit } => ActionView::ReadHistory { limit },
            Action::PruneHistory { statement } => ActionView::PruneHistory {
                statement: text::text_opt(statement),
            },
            Action::CountHistory { statement } => ActionView::CountHistory {
                statement: text::text_opt(statement),
            },
        }
    }
}

/// A request that is carried out.
#[derive(Debug)]
pub struct Answer {
    /// The job that was signalled.
    pub signal: Option<Signal>,
    /// What is to be done, in order, before the response is sent.
    pub effects: Vec<Effect>,
    /// The transfer that is to be started.
    pub launch: Option<Launch>,
    /// Whether the daemon is to shut down.
    pub shutdown: bool,
    pub response: Response,
}

/// What an `Answer` says.
pub struct AnswerView {
    pub signal: Option<Signal>,
    pub effects: Seq<manager::EffectView>,
    pub launch: Option<manager::LaunchView>,
    pub shutdown: bool,
    pub response: message::ResponseView,
}

impl View for Answer {
    type V = AnswerView;

    open spec fn view(&self) -> AnswerView {
        AnswerView {
            signal: self.signal,
            effects: manager::effects(self.effects@),
            launch: match self.launch {
                Some(launch) => Some(launch@),
                None => None,
            },
            shutdown: self.shutdown,
            response: self.response@,
        }
    }
}

/// The answer that consists of `response` alone.
pub open spec fn plain(response: message::ResponseView) -> AnswerView {
    AnswerView { signal: None, effects: Seq::empty(), launch: None, shutdown: false, response }
}

fn plain_answer(response: Response) -> (r: Answer)
    ensures
        r@ == plain(response@),
{
    let r = Answer { signal: None, effects: Vec::new(), launch: None, shutdown: false, response };
    assert(r@.effects =~= Seq::empty());
    r
}

/// URLs on their way into the queue.
#[derive(Debug)]
pub struct AddJobs {
    pub urls: Vec<String>,
    /// The directory that takes the files.
    pub base: String,
    pub connections: u8,
    pub headers: Vec<(String, String)>,
    /// The numbers of the jobs that are queued already.
    pub ids: Vec<u64>,
}

/// What an `AddJobs` holds.
pub struct AddView {
    pub urls: Seq<Seq<char>>,
    pub base: Seq<char>,
    pub connections: u8,
    pub headers: Seq<(Seq<char>, Seq<char>)>,
    pub ids: Seq<u64>,
}

impl View for AddJobs {
    type V = AddView;

    open spec fn view(&self) -> AddView {
        AddView {
            urls: text::texts(self.urls@),
            base: self.base@,
            connections: self.connections,
            headers: text::text_pairs(self.headers@),
            ids: self.ids@,
        }
    }
}

impl AddView {
    /// Where the file of the `i`th URL goes.
    pub open spec fn target(self, i: int) -> Seq<char> {
        paths::joined_path(self.base, utils::filename(self.urls[i]))
    }

    /// The job of the `i`th URL, queued as number `id`.
    pub open spec fn job(self, i: int, id: u64, now: i64) -> job::JobView {
        job::queued(id, self.urls[i], self.target(i), self.connections, self.headers, now)
    }
}

/// A row that is to be inserted into the database.
#[derive(Debug)]
pub struct NewRow {
    pub url: String,
    pub output_path: String,
    pub connections: u8,
}

impl AddJobs {
    /// The row that is to be inserted next, or none where all URLs are queued.
    pub fn next_row(&self) -> (r: Option<NewRow>)
        ensures
            match r {
                Some(row) => {
                    let i = self@.ids.len() as int;
                    &&& i < self@.urls.len()
                    &&& row.url@ == self@.urls[i]
                    &&& row.output_path@ == self@.target(i)
                    &&& row.connections == self@.connections
                },
                None => self@.ids.len() >= self@.urls.len(),
            },
    {
        let i: usize = self.ids.len();
        if i >= self.urls.len() {
            return None;
        }
        let url: &String = &self.urls[i];
        Some(
            NewRow {
                url: url.clone(),
                output_path: paths::join_path(
                    self.base.as_str(),
                    utils::filename_from_url(url.as_str()).as_str(),
                ),
                connections: self.connections,
            },
        )
    }

    /// The database gave the next row the number `db_id`: its job joins the queue under that
    /// number, so that the two stay in sync.
    pub fn row_inserted(&mut self, db_id: i64, queue: &mut QueueManager, now: i64) -> (r: ManagerEvent)
        requires
            old(queue)@.wf(),
            old(self)@.ids.len() < old(self)@.urls.len(),
            db_id != -1,
        ensures
            final(queue)@ == old(queue)@.added(
                old(self)@.job(old(self)@.ids.len() as int, db_id as u64, now),
            ),
            final(queue)@.wf(),
            final(self)@ == (AddView {
                ids: old(self)@.ids.push(db_id as u64),
                ..old(self)@
            }),
    {
        let i: usize = self.ids.len();
        let id: u64 = db_id as u64;
        proof {
            assert(db_id != -1 ==> (db_id as u64) != u64::MAX) by (bit_vector);
        }
        let url = self.urls[i].clone();
        let output_path = paths::join_path(
            self.base.as_str(),
            utils::filename_from_url(url.as_str()).as_str(),
        );
        let headers = text::copy_pairs(&self.headers);
        let event = queue.add_with_id(
            id,
            url,
            output_path,
            self.connections,
            headers,
            None,
            0,
            0,
            None,
            None,
            now,
        );
        self.ids.push(id);
        event
    }

    /// The answer once all URLs are queued. The transfers are to be started then.
    pub fn finish(self) -> (r: Response)
        ensures
            r@ == (message::ResponseView::Queued { ids: self@.ids }),
    {
        Response::Queued { ids: self.ids }
    }
}

/// The answer where the database refused a row. Nothing is started then; the jobs before it stay
/// queued.
pub fn insert_failed(error: &str) -> (r: Response)
    ensures
        r@ == (message::ResponseView::Error { message: "DB error: "@ + error@ }),
{
    let mut message = "DB error: ".to_owned();
    message.append(error);
    Response::Error { message }
}

/// The answer to a line that is no request.
pub fn bad_request(error: &str) -> (r: Response)
    ensures
        r@ == (message::ResponseView::Error { message: "Bad request JSON: "@ + error@ }),
{
    let mut message = "Bad request JSON: ".to_owned();
    message.append(error);
    Response::Error { message }
}

/// `Job #` with the number `id`, and what became of it.
pub open spec fn job_message(id: u64, what: Seq<char>) -> Seq<char> {
    "Job #"@ + text::decimal(id as nat) + what
}

fn job_text(id: u64, what: &str) -> (r: String)
    ensures
        r@ == job_message(id, what@),
{
    let mut r = "Job #".to_owned();
    r.append(text::decimal_text(id).as_str());
    r.append(what);
    r
}

/// Whether a list of jobs leaves out this status by default.
pub open spec fn hidden(status: Seq<char>) -> bool {
    status == "Done"@ || status == "Cancelled"@ || text::begins_with(status, "Failed"@)
}

fn is_hidden(status: &str) -> (r: bool)
    ensures
        r == hidden(status@),
{
    text::same_text(status, "Done") || text::same_text(status, "Cancelled")
        || text::starts_with(status, "Failed")
}

/// The jobs that a list shows: all of them, or only those that have not come to an end.
pub open spec fn listed(
    jobs: Seq<message::SummaryView>,
    all: bool,
) -> Seq<message::SummaryView> {
    if all {
        jobs
    } else {
        jobs.filter(|j: message::SummaryView| !hidden(j.status))
    }
}

/// The jobs that a list shows.
pub fn list_jobs(jobs: Vec<JobSummary>, all: bool) -> (r: Vec<JobSummary>)
    ensures
        message::summaries(r@) == listed(message::summaries(jobs@), all),
{
    if all {
        return jobs;
    }
    let mut r: Vec<JobSummary> = Vec::new();
    let ghost views = message::summaries(jobs@);
    let ghost shown = |j: message::SummaryView| !hidden(j.status);
    let mut i: usize = 0;
    proof {
        reveal(Seq::filter);
        assert(views.take(0) =~= Seq::empty());
        assert(message::summaries(r@) =~= views.take(0).filter(shown));
    }
    while i < jobs.len()
        invariant
            i <= jobs@.len(),
            views == message::summaries(jobs@),
            shown == (|j: message::SummaryView| !hidden(j.status)),
            message::summaries(r@) == views.take(i as int).filter(shown),
        decreases jobs@.len() - i,
    {
        let ghost before = r@;
        proof {
            reveal(Seq::filter);
            assert(views.take(i + 1).drop_last() =~= views.take(i as int));
            assert(views.take(i + 1).last() == jobs@[i as int]@);
        }
        if !is_hidden(jobs[i].status.as_str()) {
            r.push(jobs[i].clone());
            assert(message::summaries(r@) =~= message::summaries(before).push(jobs@[i as int]@));
        }
        i += 1;
    }
    assert(views.take(jobs@.len() as int) =~= views);
    r
}

/// The answer to a request for the history.
pub fn history_response(jobs: Vec<JobSummary>) -> (r: Response)
    ensures
        r@ == (message::ResponseView::JobList { jobs: message::summaries(jobs@) }),
{
    Response::JobList { jobs }
}

/// What a prune of `count` entries reports.
pub open spec fn prune_message(count: u64, dry_run: bool) -> Seq<char> {
    let what = if dry_run {
        "Would prune "@
    } else {
        "Pruned "@
    };
    what + text::decimal(count as nat) + " old jobs from history"@
}

/// The answer to a prune that removed `count` entries, or with `dry_run` only counted them.
pub fn prune_response(count: u64, dry_run: bool) -> (r: Response)
    ensures
        r@ == (message::ResponseView::PruneResult {
            count,
            message: prune_message(count, dry_run),
        }),
{
    let mut message = if dry_run {
        "Would prune ".to_owned()
    } else {
        "Pruned ".to_owned()
    };
    message.append(text::decimal_text(count).as_str());
    message.append(" old jobs from history");
    Response::PruneResult { count, message }
}

/// What becomes of the queue when `request` arrives.
pub open spec fn queue_after(
    q: manager::QueueView,
    request: message::RequestView,
    clock: Clock,
) -> manager::QueueView {
    match request {
        message::RequestView::Pause { id } => q.signalled(id, JobControl::Pause),
        message::RequestView::Resume { id } => q.resumed(id),
        message::RequestView::Cancel { id } => q.cancelled(id),
        message::RequestView::Status { .. } => q.sampled(clock.mono),
        _ => q,
    }
}

/// What the snapshot of the queue says.
pub open spec fn snapshot(q: manager::QueueView, clock: Clock) -> Seq<message::SummaryView> {
    Seq::new(q.jobs.len(), |i: int| manager::summary_of(q.sampled(clock.mono).jobs[i], clock))
}

/// The answer to `request`, where it is carried out at once.
pub open spec fn answer(
    q: manager::QueueView,
    request: message::RequestView,
    clock: Clock,
) -> Option<AnswerView> {
    let told = seq![manager::EffectView::Emit(ManagerEvent::JobsChanged)];
    match request {
        message::RequestView::Pause { id } => Some(
            AnswerView {
                signal: match q.controlled(id) {
                    Some(at) => Some(Signal { position: at as usize, control: JobControl::Pause }),
                    None => None,
                },
                effects: told.push(
                    match q.controlled(id) {
                        Some(at) => manager::EffectView::Persist {
                            id: id as i64,
                            status: "Paused"@,
                            downloaded: q.jobs[at].downloaded,
                            total_size: q.jobs[at].live_total,
                        },
                        None => manager::EffectView::Persist {
                            id: id as i64,
                            status: "Paused"@,
                            downloaded: 0,
                            total_size: 0,
                        },
                    },
                ),
                ..plain(
                    message::ResponseView::Success { message: job_message(id, " paused"@) },
                )
            },
        ),
        message::RequestView::Resume { id } => Some(
            AnswerView {
                effects: told,
                launch: match q.resumable(id) {
                    Some(at) => Some(manager::launch_of(q.jobs[at], at)),
                    None => None,
                },
                ..plain(
                    message::ResponseView::Success { message: job_message(id, " resumed"@) },
                )
            },
        ),
        message::RequestView::Cancel { id } => Some(
            AnswerView {
                signal: match q.controlled(id) {
                    Some(at) if !(q.jobs[at].status is Paused) => Some(
                        Signal { position: at as usize, control: JobControl::Cancel },
                    ),
                    _ => None,
                },
                effects: match q.controlled(id) {
                    Some(at) => told.push(manager::EffectView::Delete { id: id as i64 }),
                    None => seq![manager::EffectView::Delete { id: id as i64 }],
                },
                ..plain(
                    message::ResponseView::Success { message: job_message(id, " cancelled"@) },
                )
            },
        ),
        message::RequestView::Status { all } => Some(
            plain(message::ResponseView::JobList { jobs: listed(snapshot(q, clock), all) }),
        ),
        message::RequestView::Subscribe { .. } => Some(plain(message::ResponseView::Subscribed)),
        message::RequestView::Unsubscribe => Some(
            plain(message::ResponseView::Success { message: "Unsubscribed"@ }),
        ),
        message::RequestView::Shutdown => Some(
            AnswerView {
                shutdown: true,
                ..plain(message::ResponseView::Success { message: "Daemon shutting down"@ })
            },
        ),
        _ => None,
    }
}

/// How `request` goes on. URLs that are added without a directory go to `download_dir`.
pub open spec fn action(
    q: manager::QueueView,
    request: message::RequestView,
    download_dir: Seq<char>,
    clock: Clock,
) -> ActionView {
    match request {
        message::RequestView::Add { urls, output_dir, connections, headers } => ActionView::Insert(
            AddView {
                urls,
                base: match output_dir {
                    Some(dir) => dir,
                    None => download_dir,
                },
                connections,
                headers,
                ids: Seq::empty(),
            },
        ),
        message::RequestView::History { limit } => ActionView::ReadHistory { limit },
        message::RequestView::Prune { days, statuses, dry_run } => if dry_run {
            ActionView::CountHistory { statement: schema::counting(days, statuses) }
        } else {
            ActionView::PruneHistory { statement: schema::deletion(days, statuses) }
        },
        _ => ActionView::Answer(answer(q, request, clock)->0),
    }
}

/// Whether `request` ends the subscription of the client that sends it.
pub fn ends_subscription(request: &Request) -> (r: bool)
    ensures
        r == (request@ is Unsubscribe),
{
    match request {
        Request::Unsubscribe => true,
        _ => false,
    }
}

/// Executes `request`. URLs that are added without a directory go to `download_dir`.
pub fn handle_request(
    request: Request,
    queue: &mut QueueManager,
    download_dir: &str,
    clock: &Clock,
) -> (r: Action)
    requires
        old(queue)@.wf(),
    ensures
        final(queue)@ == queue_after(old(queue)@, request@, *clock),
        final(queue)@.wf(),
        r@ == action(old(queue)@, request@, download_dir@, *clock),
{
    match request {
        Request::Add { urls, output_dir, connections, headers } => {
            let base = match output_dir {
                Some(dir) => dir,
                None => download_dir.to_owned(),
            };
            Action::Insert(AddJobs { urls, base, connections, headers, ids: Vec::new() })
        },
        Request::Pause { id } => {
            let (signal, event) = queue.pause(id);
            let mut effects: Vec<Effect> = Vec::new();
            effects.push(Effect::Emit(event));
            let (downloaded, total_size): (u64, u64) = match &signal {
                Some(s) => queue.progress_at(s.position),
                None => (0, 0),
            };
            effects.push(
                Effect::Persist {
                    id: id as i64,
                    status: "Paused".to_owned(),
                    downloaded,
                    total_size,
                },
            );
            let response = Response::Success { message: job_text(id, " paused") };
            let a = Answer { signal, effects, launch: None, shutdown: false, response };
            assert(a@.effects =~= (answer(old(queue)@, request@, *clock)->0).effects);
            Action::Answer(a)
        },
        Request::Resume { id } => {
            let (launch, event) = queue.resume(id);
            let mut effects: Vec<Effect> = Vec::new();
            effects.push(Effect::Emit(event));
            let response = Response::Success { message: job_text(id, " resumed") };
            let a = Answer { signal: None, effects, launch, shutdown: false, response };
            assert(a@.effects =~= (answer(old(queue)@, request@, *clock)->0).effects);
            Action::Answer(a)
        },
        Request::Cancel { id } => {
            let mut effects: Vec<Effect> = Vec::new();
            let signal: Option<Signal> = match queue.cancel(id) {
                Some((signal, event)) => {
                    effects.push(Effect::Emit(event));
                    signal
                },
                None => None,
            };
            effects.push(Effect::Delete { id: id as i64 });
            let response = Response::Success { message: job_text(id, " cancelled") };
            let a = Answer { signal, effects, launch: None, shutdown: false, response };
            assert(a@.effects =~= (answer(old(queue)@, request@, *clock)->0).effects);
            Action::Answer(a)
        },
        Request::Status { all } => {
            let jobs = queue.job_summaries(clock);
            assert(message::summaries(jobs@) =~= snapshot(old(queue)@, *clock));
            Action::Answer(plain_answer(Response::JobList { jobs: list_jobs(jobs, all) }))
        },
        Request::Subscribe { .. } => Action::Answer(plain_answer(Response::Subscribed)),
        Request::Unsubscribe => Action::Answer(
            plain_answer(Response::Success { message: "Unsubscribed".to_owned() }),
        ),
        Request::Shutdown => {
            let mut a = plain_answer(
                Response::Success { message: "Daemon shutting down".to_owned() },
            );
            a.shutdown = true;
            Action::Answer(a)
        },
        Request::History { limit } => Action::ReadHistory { limit },
        Request::Prune { days, statuses, dry_run } => {
            if dry_run {
                Action::CountHistory { statement: schema::prune_count_sql(days, &statuses) }
            } else {
                Action::PruneHistory { statement: schema::prune_sql(days, &statuses) }
            }
        },
    }
}

/// A list leaves out a job by default exactly when the job has come to an end.
pub proof fn law_list_hides_ended_jobs(status: job::StatusView)
    ensures
        hidden(status.text()) == status.terminal(),
{
    reveal_strlit("Pending");
    reveal_strlit("Active");
    reveal_strlit("Paused");
    reveal_strlit("Done");
    reveal_strlit("Cancelled");
    reveal_strlit("Failed");
    reveal_strlit("Failed: ");
    let t = status.text();
    assert("Failed"@[0] == 'F' && "Done"@[0] == 'D' && "Cancelled"@[0] == 'C');
    assert("Pending"@[0] == 'P' && "Paused"@[0] == 'P' && "Active"@[0] == 'A');
    match status {
        job::StatusView::Failed(e) => {
            assert(t.subrange(0, 6) =~= "Failed"@);
        },
        _ => {
            assert(t[0] != 'F');
            if t.len() >= 6 {
                assert(t.subrange(0, 6)[0] == t[0]);
            }
        },
    }
}

/// The queue after the first `n` rows of `add` were inserted under the numbers `ids`, each at its
/// moment.
pub open spec fn queue_with(
    q: manager::QueueView,
    add: AddView,
    ids: Seq<u64>,
    moments: Seq<i64>,
    n: nat,
) -> manager::QueueView
    decreases n,
{
    if n == 0 {
        q
    } else {
        queue_with(q, add, ids, moments, (n - 1) as nat).added(
            add.job(n - 1, ids[n - 1], moments[n - 1]),
        )
    }
}

/// Adding URLs appends one waiting job for each of them, in the order in which they were given.
pub proof fn law_added_urls_are_queued_in_order(
    q: manager::QueueView,
    add: AddView,
    ids: Seq<u64>,
    moments: Seq<i64>,
    n: nat,
)
    requires
        n <= add.urls.len(),
    ensures
        queue_with(q, add, ids, moments, n).jobs == q.jobs + Seq::new(
            n,
            |i: int| add.job(i, ids[i], moments[i]),
        ),
    decreases n,
{
    if n > 0 {
        law_added_urls_are_queued_in_order(q, add, ids, moments, (n - 1) as nat);
    }
    assert(queue_with(q, add, ids, moments, n).jobs =~= q.jobs + Seq::new(
        n,
        |i: int| add.job(i, ids[i], moments[i]),
    ));
}

/// A request about one job leaves every other job as it is.
pub proof fn law_request_touches_one_job(
    q: manager::QueueView,
    request: message::RequestView,
    clock: Clock,
    i: int,
)
    requires
        q.wf(),
        0 <= i < q.jobs.len(),
        match request {
            message::RequestView::Pause { id } => q.jobs[i].id != id,
            message::RequestView::Resume { id } => q.jobs[i].id != id,
            message::RequestView::Cancel { id } => q.jobs[i].id != id,
            _ => false,
        },
    ensures
        queue_after(q, request, clock).jobs[i] == q.jobs[i],
{
}

/// A dry run of a prune only counts, and what it counts is what the same request without a dry run
/// removes: the two statements share their condition. Neither touches the queue.
pub proof fn law_dry_run_counts_what_a_prune_removes(
    q: manager::QueueView,
    days: u32,
    statuses: Seq<Seq<char>>,
    download_dir: Seq<char>,
    clock: Clock,
)
    ensures
        ({
            let dry = message::RequestView::Prune { days, statuses, dry_run: true };
            let wet = message::RequestView::Prune { days, statuses, dry_run: false };
            &&& queue_after(q, dry, clock) == q
            &&& queue_after(q, wet, clock) == q
            &&& match (action(q, dry, download_dir, clock), action(q, wet, download_dir, clock)) {
                (
                    ActionView::CountHistory { statement: Some(count) },
                    ActionView::PruneHistory { statement: Some(delete) },
                ) => exists|condition: Seq<char>|
                    count == #[trigger] ("SELECT COUNT(*) FROM job_history WHERE "@ + condition)
                        && delete == "DELETE FROM job_history WHERE "@ + condition,
                (
                    ActionView::CountHistory { statement: None },
                    ActionView::PruneHistory { statement: None },
                ) => statuses.len() == 0,
                _ => false,
            }
        }),
{
    schema::law_counting_meets_what_deletion_removes(days, statuses);
}

/// Only a request to shut down shuts the daemon down.
pub proof fn law_only_shutdown_shuts_down(
    q: manager::QueueView,
    request: message::RequestView,
    clock: Clock,
)
    ensures
        (answer(q, request, clock) matches Some(a) && a.shutdown) == (request
            == message::RequestView::Shutdown),
{
}

} // verus!
