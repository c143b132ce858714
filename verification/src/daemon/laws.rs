//! What holds of requests and of restored jobs, from what is asked to what comes of it.

use vstd::prelude::*;

use crate::clock::Clock;
use crate::daemon::handler;
use crate::daemon::handler::{ActionView, AddView};
use crate::daemon::server;
use crate::ipc::message::{RequestView, ResponseView, SummaryView};
use crate::paths;
use crate::queue::job;
use crate::queue::job::JobControl;
use crate::queue::manager;
use crate::queue::manager::{EffectView, QueueView, Signal};
use crate::text;
use crate::utils;

verus! {

/// A list takes every job that has not come to an end, in the order of the queue, and no other; a
/// list of all takes all.
pub proof fn law_lists_keep_what_has_not_ended(
    jobs: Seq<SummaryView>,
    last: SummaryView,
    status: job::StatusView,
)
    requires
        last.status == status.text(),
    ensures
        handler::listed(jobs.push(last), false) == if status is Done || status is Failed {
            handler::listed(jobs, false)
        } else {
            handler::listed(jobs, false).push(last)
        },
        handler::listed(Seq::empty(), false) == Seq::<SummaryView>::empty(),
        handler::listed(jobs, true) == jobs,
{
    reveal(Seq::filter);
    handler::law_list_hides_ended_jobs(status);
    assert(jobs.push(last).drop_last() =~= jobs);
}

/// A job that is stored as cancelled is left out too.
pub proof fn law_lists_leave_out_cancelled_rows(jobs: Seq<SummaryView>, last: SummaryView)
    requires
        last.status == "Cancelled"@,
    ensures
        handler::listed(jobs.push(last), false) == handler::listed(jobs, false),
{
    reveal(Seq::filter);
    assert(jobs.push(last).drop_last() =~= jobs);
}

proof fn lemma_listed_holds(jobs: Seq<SummaryView>, x: SummaryView)
    ensures
        handler::listed(jobs, false).contains(x) <==> jobs.contains(x) && !handler::hidden(x.status),
    decreases jobs.len(),
{
    reveal(Seq::filter);
    if jobs.len() > 0 {
        let rest = jobs.drop_last();
        lemma_listed_holds(rest, x);
        let before = handler::listed(rest, false);
        let after = handler::listed(jobs, false);
        assert(jobs =~= rest.push(jobs.last()));
        if rest.contains(x) {
            let i = choose|i: int| 0 <= i < rest.len() && rest[i] == x;
            assert(jobs[i] == x);
        }
        if before.contains(x) {
            let i = choose|i: int| 0 <= i < before.len() && before[i] == x;
            assert(after[i] == x);
        }
        if jobs.contains(x) && !rest.contains(x) {
            let i = choose|i: int| 0 <= i < jobs.len() && jobs[i] == x;
            if i < rest.len() {
                assert(rest[i] == x);
            }
            assert(jobs.last() == x);
            if !handler::hidden(x.status) {
                assert(after[after.len() - 1] == x);
            }
        }
        if after.contains(x) && !before.contains(x) {
            let i = choose|i: int| 0 <= i < after.len() && after[i] == x;
            if i < before.len() {
                assert(before[i] == x);
            }
            assert(jobs[jobs.len() - 1] == x);
        }
    }
}

/// The jobs that a request for the status is answered.
pub open spec fn status_answer(q: QueueView, all: bool, clock: Clock) -> Seq<SummaryView> {
    match handler::answer(q, RequestView::Status { all }, clock)->0.response {
        ResponseView::JobList { jobs } => jobs,
        _ => Seq::empty(),
    }
}

/// A request for the status is answered with every job of the queue that has not come to an end,
/// under its number and in its status; a request for all, with every job in its place.
pub proof fn law_status_shows_the_queue(q: QueueView, clock: Clock, at: int)
    requires
        0 <= at < q.jobs.len(),
    ensures
        status_answer(q, true, clock).len() == q.jobs.len(),
        status_answer(q, true, clock)[at].id == q.jobs[at].id,
        status_answer(q, true, clock)[at].url == q.jobs[at].url,
        status_answer(q, true, clock)[at].status == q.jobs[at].status.text(),
        !(q.jobs[at].status is Done || q.jobs[at].status is Failed) ==> status_answer(
            q,
            false,
            clock,
        ).contains(status_answer(q, true, clock)[at]),
        (q.jobs[at].status is Done || q.jobs[at].status is Failed) ==> !status_answer(
            q,
            false,
            clock,
        ).contains(status_answer(q, true, clock)[at]),
{
    let all = handler::snapshot(q, clock);
    assert(all.contains(all[at]));
    lemma_listed_holds(all, all[at]);
    handler::law_list_hides_ended_jobs(q.jobs[at].status);
}

/// A request to pause signals the job that is controlled under the number and changes nothing else
/// of it; what the job has reached is stored with it. For any other number nothing changes.
pub proof fn law_pause_signals_the_job(q: QueueView, id: u64, clock: Clock)
    requires
        q.wf(),
    ensures
        ({
            let after = handler::queue_after(q, RequestView::Pause { id }, clock);
            let a = handler::answer(q, RequestView::Pause { id }, clock)->0;
            &&& handler::answer(q, RequestView::Pause { id }, clock) is Some
            &&& a.launch is None
            &&& match q.controlled(id) {
                Some(at) => {
                    &&& after.jobs[at].control is Pause
                    &&& after.jobs == q.jobs.update(
                        at,
                        job::JobView { control: JobControl::Pause, ..q.jobs[at] },
                    )
                    &&& a.signal == Some(Signal { position: at as usize, control: JobControl::Pause })
                    &&& a.effects.contains(
                        EffectView::Persist {
                            id: id as i64,
                            status: "Paused"@,
                            downloaded: q.jobs[at].downloaded,
                            total_size: q.jobs[at].live_total,
                        },
                    )
                },
                None => after == q && a.signal is None,
            }
            &&& after.index == q.index
            &&& a.response matches ResponseView::Success { message } && text::has_text(
                message,
                text::decimal(id as nat),
            )
        }),
{
    let a = handler::answer(q, RequestView::Pause { id }, clock)->0;
    lemma_message_names_the_job(id, " paused"@);
    assert(a.effects[1] is Persist);
    assert(a.effects.contains(a.effects[1]));
}

proof fn lemma_message_names_the_job(id: u64, what: Seq<char>)
    ensures
        text::has_text(handler::job_message(id, what), text::decimal(id as nat)),
{
    text::law_found_text_stands_there(
        handler::job_message(id, what),
        text::decimal(id as nat),
    );
    assert(handler::job_message(id, what) == "Job #"@ + text::decimal(id as nat) + what);
}

/// A request to cancel takes the number out of control and its row out of the database. A job that
/// is not paused is signalled; a paused one has failed at once. For a number that is not controlled
/// only the row goes.
pub proof fn law_cancel_signals_and_deletes(q: QueueView, id: u64, clock: Clock)
    requires
        q.wf(),
    ensures
        ({
            let after = handler::queue_after(q, RequestView::Cancel { id }, clock);
            let a = handler::answer(q, RequestView::Cancel { id }, clock)->0;
            &&& handler::answer(q, RequestView::Cancel { id }, clock) is Some
            &&& a.launch is None
            &&& after.controlled(id) is None
            &&& a.effects.contains(EffectView::Delete { id: id as i64 })
            &&& a.response matches ResponseView::Success { message } && text::has_text(
                message,
                text::decimal(id as nat),
            )
            &&& match q.controlled(id) {
                Some(at) => {
                    let was_paused = q.jobs[at].status is Paused;
                    &&& was_paused ==> a.signal is None && after.jobs[at].status
                        == job::StatusView::Failed("Cancelled"@) && after.jobs[at].control
                        == q.jobs[at].control
                    &&& !was_paused ==> a.signal == Some(
                        Signal { position: at as usize, control: JobControl::Cancel },
                    ) && after.jobs[at].control is Cancel && after.jobs[at].status
                        == q.jobs[at].status
                    &&& after.jobs.len() == q.jobs.len()
                    &&& forall|i: int|
                        0 <= i < q.jobs.len() && i != at ==> #[trigger] after.jobs[i] == q.jobs[i]
                },
                None => a.signal is None && after == q,
            }
        }),
{
    let a = handler::answer(q, RequestView::Cancel { id }, clock)->0;
    lemma_message_names_the_job(id, " cancelled"@);
    assert(a.effects.last() == EffectView::Delete { id: id as i64 });
    assert(a.effects.contains(a.effects.last())) by {
        assert(a.effects[a.effects.len() - 1] == a.effects.last());
    }
}

/// A request to resume starts the transfer of a paused job, with everything that the job was added
/// with, and leaves any other job alone.
pub proof fn law_resume_starts_the_paused_job(q: QueueView, id: u64, clock: Clock)
    requires
        q.wf(),
    ensures
        ({
            let after = handler::queue_after(q, RequestView::Resume { id }, clock);
            let a = handler::answer(q, RequestView::Resume { id }, clock)->0;
            &&& handler::answer(q, RequestView::Resume { id }, clock) is Some
            &&& a.signal is None
            &&& a.response matches ResponseView::Success { message } && text::has_text(
                message,
                text::decimal(id as nat),
            )
            &&& match (q.controlled(id), a.launch) {
                (Some(at), Some(launch)) => {
                    &&& q.jobs[at].status is Paused
                    &&& launch.position == at && launch.id == id
                    &&& launch.url == q.jobs[at].url
                    &&& launch.output_path == q.jobs[at].output_path
                    &&& launch.connections == q.jobs[at].connections
                    &&& launch.headers == q.jobs[at].headers
                    &&& after.jobs[at].status is Active
                    &&& after.jobs[at].control is Run
                    &&& after.jobs[at].ended_at is None
                    &&& after.jobs[at].started_at == q.jobs[at].started_at
                    &&& after.jobs[at].downloaded == q.jobs[at].downloaded
                    &&& after.jobs[at].live_total == q.jobs[at].live_total
                    &&& forall|i: int|
                        0 <= i < q.jobs.len() && i != at ==> #[trigger] after.jobs[i] == q.jobs[i]
                },
                (Some(at), None) => !(q.jobs[at].status is Paused) && after == q,
                (None, None) => after == q,
                _ => false,
            }
            &&& after.index == q.index
        }),
{
    lemma_message_names_the_job(id, " resumed"@);
}

/// Requests that are not about jobs leave the queue as it is.
pub proof fn law_other_requests_leave_the_queue(q: QueueView, request: RequestView, clock: Clock)
    requires
        !(request is Pause || request is Resume || request is Cancel || request is Status),
    ensures
        handler::queue_after(q, request, clock) == q,
{
}

/// What is asked to be added is what is inserted: all URLs, for the directory that was asked for or
/// else the default one, with the connections and the headers that were asked for.
pub proof fn law_add_inserts_what_was_asked(
    q: QueueView,
    urls: Seq<Seq<char>>,
    dir: Option<Seq<char>>,
    connections: u8,
    headers: Seq<(Seq<char>, Seq<char>)>,
    default_dir: Seq<char>,
    clock: Clock,
)
    ensures
        ({
            let request = RequestView::Add { urls, output_dir: dir, connections, headers };
            handler::action(q, request, default_dir, clock) matches ActionView::Insert(add)
                && add.urls == urls && add.connections == connections && add.headers == headers
                && add.ids.len() == 0 && (dir matches Some(d) ==> add.base == d) && (dir is None
                ==> add.base == default_dir)
        }),
{
}

/// An added job waits under its number, for its URL, with the connections and headers that were
/// asked for, and nothing of it is downloaded. Its file goes into the directory under the name in
/// the URL.
pub proof fn law_added_job_is_as_asked(add: AddView, i: int, id: u64, now: i64, site: Seq<char>, name: Seq<char>)
    requires
        0 <= i < add.urls.len(),
        add.urls[i] == site + seq!['/'] + name,
        name.len() > 0,
        !name.contains('/'),
        add.base.len() > 0,
        add.base.last() != '/',
    ensures
        ({
            let j = add.job(i, id, now);
            &&& j.id == id
            &&& j.url == add.urls[i]
            &&& j.output_path == add.base + seq!['/'] + name
            &&& j.connections == add.connections
            &&& j.headers == add.headers
            &&& j.status is Pending
            &&& j.control is Run
            &&& j.downloaded == 0 && j.total_size == 0 && j.live_total == 0 && j.chunks_done == 0
            &&& j.started_at is None && j.ended_at is None
        }),
{
    utils::law_filename_is_what_follows_the_last_slash(site, name);
    assert(name.contains(name[0]));
    assert(paths::joined_path(add.base, name) =~= add.base + seq!['/'] + name);
}

/// A request for the history reads as many entries as were asked for, and a prune goes to the
/// database: as a deletion unless it is a dry run, which only counts. Without statuses there is
/// nothing to do.
pub proof fn law_prune_deletes_unless_dry(
    q: QueueView,
    days: u32,
    statuses: Seq<Seq<char>>,
    dry_run: bool,
    limit: u32,
    dir: Seq<char>,
    clock: Clock,
)
    ensures
        handler::action(q, RequestView::History { limit }, dir, clock) == (ActionView::ReadHistory {
            limit,
        }),
        match handler::action(q, RequestView::Prune { days, statuses, dry_run }, dir, clock) {
            ActionView::PruneHistory { statement } => !dry_run && (statement is Some <==> statuses.len()
                > 0) && (statement matches Some(sql) ==> text::begins_with(
                sql,
                "DELETE FROM job_history WHERE "@,
            )),
            ActionView::CountHistory { statement } => dry_run && (statement is Some <==> statuses.len()
                > 0) && (statement matches Some(sql) ==> text::begins_with(
                sql,
                "SELECT COUNT(*) FROM job_history WHERE "@,
            )),
            _ => false,
        },
{
    match handler::action(q, RequestView::Prune { days, statuses, dry_run }, dir, clock) {
        ActionView::PruneHistory { statement: Some(sql) } => {
            text::law_beginnings_stand_first(sql, "DELETE FROM job_history WHERE "@);
        },
        ActionView::CountHistory { statement: Some(sql) } => {
            text::law_beginnings_stand_first(sql, "SELECT COUNT(*) FROM job_history WHERE "@);
        },
        _ => {},
    }
}

/// The report of a prune tells the number, and whether it was a dry run.
pub proof fn law_prune_reports_its_count(count: u64)
    ensures
        text::has_text(handler::prune_message(count, true), text::decimal(count as nat)),
        text::has_text(handler::prune_message(count, false), text::decimal(count as nat)),
        text::begins_with(handler::prune_message(count, true), "Would prune "@),
        text::begins_with(handler::prune_message(count, false), "Pruned "@),
{
    let n = text::decimal(count as nat);
    let dry = handler::prune_message(count, true);
    let wet = handler::prune_message(count, false);
    assert(dry == "Would prune "@ + n + " old jobs from history"@);
    assert(wet == "Pruned "@ + n + " old jobs from history"@);
    text::law_found_text_stands_there(dry, n);
    text::law_found_text_stands_there(wet, n);
    assert(dry =~= "Would prune "@ + (n + " old jobs from history"@));
    assert(wet =~= "Pruned "@ + (n + " old jobs from history"@));
    text::law_beginnings_stand_first(dry, "Would prune "@);
    text::law_beginnings_stand_first(wet, "Pruned "@);
}

/// A stored job comes back as it was stored: its number, URL, path and progress, the moments of its
/// seconds, and as many connections as it had chunks. It is paused where it was paused, and waits
/// otherwise.
pub proof fn law_restored_jobs_are_as_stored(row: SummaryView, part: Option<u64>, clock: Clock)
    ensures
        ({
            let j = server::restored_job(row, part, clock);
            &&& j.id == row.id
            &&& j.url == row.url
            &&& j.output_path == row.output_path
            &&& j.connections == row.chunks_total
            &&& j.downloaded == row.downloaded
            &&& j.headers.len() == 0
            &&& row.status == "Paused"@ ==> j.status is Paused && j.control is Pause
            &&& row.status != "Paused"@ ==> j.status is Pending && j.control is Run
            &&& j.total_size == j.live_total
            &&& row.total_size > 0 ==> j.total_size == row.total_size
            &&& row.status != "Paused"@ ==> j.total_size == row.total_size
            &&& row.total_size == 0 && row.status == "Paused"@ && part is Some ==> j.total_size
                == part->0
            &&& part is None ==> j.total_size == row.total_size
            &&& row.started_at is None ==> j.started_at is None
            &&& row.ended_at is None ==> j.ended_at is None
            &&& row.started_at matches Some(e) ==> j.started_at == clock.moment(e)
            &&& row.ended_at matches Some(e) ==> j.ended_at == clock.moment(e)
        }),
{
}

/// Resuming a restored job launches its transfer with the number, URL and path that were stored,
/// over as many connections as it had chunks, so that its resume state still fits.
pub proof fn law_restored_jobs_resume_as_stored(
    q: QueueView,
    row: SummaryView,
    part: Option<u64>,
    clock: Clock,
)
    requires
        q.jobs.len() < usize::MAX,
        row.status == "Paused"@,
    ensures
        ({
            let after = q.added(server::restored_job(row, part, clock));
            let a = handler::answer(after, RequestView::Resume { id: row.id }, clock)->0;
            a.launch matches Some(launch) && launch.position == q.jobs.len() && launch.id == row.id
                && launch.url == row.url && launch.output_path == row.output_path
                && launch.connections == row.chunks_total && launch.headers.len() == 0
        }),
{
}

/// A size that was found in a resume state is stored, and only then is anything stored.
pub proof fn law_found_sizes_replace_missing_ones(row: SummaryView, part: Option<u64>)
    ensures
        server::recovered_size(row, part) != row.total_size ==> row.status == "Paused"@
            && row.total_size == 0 && part == Some(server::recovered_size(row, part)),
        server::lacks_size(row) <==> row.status == "Paused"@ && row.total_size == 0,
{
}

/// A line holds its message and ends with the only line break that it adds; where there is no
/// message, it still holds one.
pub proof fn law_lines_hold_their_message(json: Seq<char>)
    ensures
        server::frame(Some(json)).len() == json.len() + 1,
        server::frame(Some(json)).take(json.len() as int) == json,
        server::frame(Some(json)).last() == '\n',
        text::has_text(server::frame(None), "serialization failed"@),
        server::frame(None).last() == '\n',
{
    assert(server::frame(Some(json)).take(json.len() as int) =~= json);
    reveal_strlit("{\"type\":\"error\",\"message\":\"serialization failed\"}");
    reveal_strlit("serialization failed");
    let line = server::frame(None);
    let before = line.take(27);
    let after = line.skip(47);
    assert(line.subrange(27, 47) =~= "serialization failed"@);
    assert(line =~= before + "serialization failed"@ + after);
    text::law_found_text_stands_there(line, "serialization failed"@);
}

/// Subscribers are told of every request that is about a job that is controlled. What is stored is
/// the pause, and what is deleted the cancelled row; nothing else is done.
pub proof fn law_requests_about_jobs_are_told(q: QueueView, id: u64, clock: Clock)
    ensures
        ({
            let told = EffectView::Emit(manager::ManagerEvent::JobsChanged);
            let pause = handler::answer(q, RequestView::Pause { id }, clock)->0;
            let resume = handler::answer(q, RequestView::Resume { id }, clock)->0;
            let cancel = handler::answer(q, RequestView::Cancel { id }, clock)->0;
            &&& pause.effects.len() == 2 && pause.effects[0] == told
            &&& q.controlled(id) is None ==> pause.effects[1] == (EffectView::Persist {
                id: id as i64,
                status: "Paused"@,
                downloaded: 0,
                total_size: 0,
            })
            &&& resume.effects == seq![told]
            &&& q.controlled(id) is Some ==> cancel.effects == seq![
                told,
                EffectView::Delete { id: id as i64 },
            ]
            &&& q.controlled(id) is None ==> cancel.effects == seq![
                EffectView::Delete { id: id as i64 },
            ]
        }),
{
    let told = EffectView::Emit(manager::ManagerEvent::JobsChanged);
    let cancel = handler::answer(q, RequestView::Cancel { id }, clock)->0;
    if q.controlled(id) is Some {
        assert(cancel.effects =~= seq![told, EffectView::Delete { id: id as i64 }]);
    }
}

/// The answer to a request about a job says what became of the job of that number.
pub proof fn law_answers_say_what_became_of_the_job(q: QueueView, id: u64, clock: Clock)
    ensures
        (handler::answer(q, RequestView::Pause { id }, clock)->0).response == (
        ResponseView::Success { message: "Job #"@ + text::decimal(id as nat) + " paused"@ }),
        (handler::answer(q, RequestView::Resume { id }, clock)->0).response == (
        ResponseView::Success { message: "Job #"@ + text::decimal(id as nat) + " resumed"@ }),
        (handler::answer(q, RequestView::Cancel { id }, clock)->0).response == (
        ResponseView::Success { message: "Job #"@ + text::decimal(id as nat) + " cancelled"@ }),
{
}

/// A request for a subscription is confirmed as such, its end and a shutdown are confirmed with
/// words, and none of them does anything to the jobs.
pub proof fn law_other_requests_are_confirmed(q: QueueView, request: RequestView, clock: Clock)
    requires
        request is Subscribe || request is Unsubscribe || request is Shutdown || request is Status,
    ensures
        ({
            let a = handler::answer(q, request, clock)->0;
            &&& handler::answer(q, request, clock) is Some
            &&& request is Subscribe <==> a.response is Subscribed
            &&& request is Status <==> a.response is JobList
            &&& request is Unsubscribe || request is Shutdown <==> a.response is Success
            &&& a.signal is None && a.launch is None && a.effects.len() == 0
            &&& a.shutdown <==> request is Shutdown
        }),
{
}

/// Every request but those to add, to read the history and to prune is answered at once.
pub proof fn law_requests_are_answered_at_once(
    q: QueueView,
    request: RequestView,
    dir: Seq<char>,
    clock: Clock,
)
    ensures
        handler::answer(q, request, clock) is Some <==> !(request is Add || request is History
            || request is Prune),
        handler::answer(q, request, clock) is Some ==> handler::action(q, request, dir, clock) == (
        ActionView::Answer(handler::answer(q, request, clock)->0)),
{
}

/// A request for the status measures the speed of every running job anew and changes no other; what
/// it answers is what was measured.
pub proof fn law_status_measures_the_speeds(q: QueueView, all: bool, clock: Clock, at: int)
    requires
        0 <= at < q.jobs.len(),
    ensures
        ({
            let after = handler::queue_after(q, RequestView::Status { all }, clock);
            &&& after.jobs.len() == q.jobs.len()
            &&& q.jobs[at].status is Active ==> after.jobs[at] == q.jobs[at].sampled(clock.mono)
            &&& !(q.jobs[at].status is Active) ==> after.jobs[at] == q.jobs[at]
            &&& after == (QueueView { jobs: after.jobs, ..q })
            &&& status_answer(q, true, clock)[at] == manager::summary_of(after.jobs[at], clock)
        }),
{
}

} // verus!
