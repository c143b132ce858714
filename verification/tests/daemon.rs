use shard::clock::Clock;
use shard::daemon::handler::{
    bad_request, ends_subscription, handle_request, history_response, insert_failed, prune_response, Action, Answer,
};
use shard::daemon::server::{
    frame_line, is_subscription, needs_part_state, persisted_instants, restore_job, socket_path,
    Subscription,
};
use shard::ipc::client::{
    bad_response, connect_failure, message_of_line, request_line, stream_line, subscribe_line,
    Stream, StreamAction, StreamLine,
};
use shard::ipc::message::{same_summaries, JobSummary, Request, Response};
use shard::queue::job::JobControl;
use shard::queue::manager::{Effect, QueueManager, TaskOutcome};

const SEC: i64 = 1_000_000_000;

fn clock() -> Clock {
    Clock { mono: 100 * SEC, unix: 1_700_000_000 * SEC }
}

fn summary(id: u64, status: &str) -> JobSummary {
    JobSummary {
        id,
        url: format!("http://h/{id}"),
        output_path: format!("/d/{id}"),
        status: status.to_string(),
        total_size: 0,
        downloaded: 0,
        speed_bps: None,
        chunks_total: 4,
        chunks_done: 0,
        started_at: None,
        ended_at: None,
        added_at: None,
        error_msg: None,
    }
}

fn ask(q: &mut QueueManager, request: Request) -> Answer {
    match handle_request(request, q, "/dl", &clock()) {
        Action::Answer(a) => a,
        other => panic!("{other:?}"),
    }
}

fn success(r: &Response) -> String {
    match r {
        Response::Success { message } => message.clone(),
        other => panic!("{other:?}"),
    }
}

fn error(r: &Response) -> String {
    match r {
        Response::Error { message } => message.clone(),
        other => panic!("{other:?}"),
    }
}

fn add(q: &mut QueueManager, urls: &[&str], dir: Option<&str>, first_id: i64) -> Response {
    let request = Request::Add {
        urls: urls.iter().map(|u| u.to_string()).collect(),
        output_dir: dir.map(|d| d.to_string()),
        connections: 3,
        headers: vec![("k".to_string(), "v".to_string())],
    };
    match handle_request(request, q, "/dl", &clock()) {
        Action::Insert(mut jobs) => {
            let mut id = first_id;
            while let Some(row) = jobs.next_row() {
                assert_eq!(row.connections, 3);
                assert!(row.output_path.starts_with(dir.unwrap_or("/dl")));
                jobs.row_inserted(id, q, 0);
                id += 1;
            }
            jobs.finish()
        }
        other => panic!("{other:?}"),
    }
}

#[test]
fn added_urls_are_queued_in_order() {
    let mut q = QueueManager::new(1);
    match add(&mut q, &["http://h/a", "http://h/b/"], None, 5) {
        Response::Queued { ids } => assert_eq!(ids, vec![5, 6]),
        other => panic!("{other:?}"),
    }
    match add(&mut q, &["http://h/c"], Some("/x/"), 9) {
        Response::Queued { ids } => assert_eq!(ids, vec![9]),
        other => panic!("{other:?}"),
    }
    match add(&mut q, &[], None, 1) {
        Response::Queued { ids } => assert!(ids.is_empty()),
        other => panic!("{other:?}"),
    }
    let jobs = q.job_summaries(&clock());
    let paths: Vec<&str> = jobs.iter().map(|j| j.output_path.as_str()).collect();
    assert_eq!(paths, vec!["/dl/a", "/dl/downloaded_file", "/x/c"]);
    let launch = q.launch_next(0).unwrap();
    assert_eq!((launch.id, launch.connections), (5, 3));
    assert_eq!(launch.headers, vec![("k".to_string(), "v".to_string())]);
}

#[test]
fn database_errors_are_answered() {
    assert_eq!(error(&insert_failed("locked")), "DB error: locked");
}

#[test]
fn bad_requests_are_answered() {
    assert_eq!(error(&bad_request("eof")), "Bad request JSON: eof");
}

#[test]
fn pause_is_answered_and_stored() {
    let mut q = QueueManager::new(1);
    add(&mut q, &["http://h/a"], None, 1);
    q.record_progress(0, 12, 34);
    let a = ask(&mut q, Request::Pause { id: 1 });
    assert_eq!(success(&a.response), "Job #1 paused");
    assert_eq!(a.signal.unwrap().control, JobControl::Pause);
    assert_eq!(a.effects.len(), 2);
    match &a.effects[1] {
        Effect::Persist { id, status, downloaded, total_size } => {
            assert_eq!((*id, status.as_str(), *downloaded, *total_size), (1, "Paused", 12, 34));
        }
        other => panic!("{other:?}"),
    }
    let a = ask(&mut q, Request::Pause { id: 42 });
    assert_eq!(success(&a.response), "Job #42 paused");
    assert!(a.signal.is_none());
    assert!(matches!(
        a.effects[1],
        Effect::Persist { id: 42, downloaded: 0, total_size: 0, .. }
    ));
}

#[test]
fn cancel_is_answered_and_deletes() {
    let mut q = QueueManager::new(1);
    add(&mut q, &["http://h/a"], None, 1);
    let a = ask(&mut q, Request::Cancel { id: 1 });
    assert_eq!(success(&a.response), "Job #1 cancelled");
    assert!(matches!(a.effects[..], [Effect::Emit(_), Effect::Delete { id: 1 }]));
    let a = ask(&mut q, Request::Cancel { id: 1 });
    assert_eq!(success(&a.response), "Job #1 cancelled");
    assert!(matches!(a.effects[..], [Effect::Delete { id: 1 }]));
    assert!(a.signal.is_none());
}

#[test]
fn resume_is_answered_and_starts() {
    let mut q = QueueManager::new(1);
    add(&mut q, &["http://h/a"], None, 1);
    assert!(ask(&mut q, Request::Resume { id: 1 }).launch.is_none());
    q.launch_next(0);
    q.finish_task(1, TaskOutcome::Stopped { message: "Paused".to_string() }, 0, 0, false, 0);
    let a = ask(&mut q, Request::Resume { id: 1 });
    assert_eq!(success(&a.response), "Job #1 resumed");
    assert_eq!(a.launch.unwrap().id, 1);
}

#[test]
fn status_hides_what_has_ended() {
    let mut q = QueueManager::new(1);
    add(&mut q, &["http://h/a", "http://h/b", "http://h/c"], None, 1);
    q.launch_next(0);
    q.launch_next(0);
    q.finish_task(1, TaskOutcome::Completed { downloaded: 1, total_size: 1 }, 0, 0, false, 0);
    q.finish_task(2, TaskOutcome::Stopped { message: "x".to_string() }, 0, 0, false, 0);
    match ask(&mut q, Request::Status { all: false }).response {
        Response::JobList { jobs } => {
            assert_eq!(jobs.iter().map(|j| j.id).collect::<Vec<u64>>(), vec![3]);
        }
        other => panic!("{other:?}"),
    }
    match ask(&mut q, Request::Status { all: true }).response {
        Response::JobList { jobs } => assert_eq!(jobs.len(), 3),
        other => panic!("{other:?}"),
    }
}

#[test]
fn shutdown_is_answered() {
    let mut q = QueueManager::new(1);
    let a = ask(&mut q, Request::Shutdown);
    assert!(a.shutdown);
    assert_eq!(success(&a.response), "Daemon shutting down");
    let a = ask(&mut q, Request::Unsubscribe);
    assert!(!a.shutdown);
    let a = ask(&mut q, Request::Subscribe { all: true });
    assert!(matches!(a.response, Response::Subscribed));
}

#[test]
fn history_and_prune_are_passed_on() {
    let mut q = QueueManager::new(1);
    let a = handle_request(Request::History { limit: 7 }, &mut q, "/dl", &clock());
    assert!(matches!(a, Action::ReadHistory { limit: 7 }));
    let prune = |dry_run| Request::Prune { days: 3, statuses: vec!["Done".to_string()], dry_run };
    let rows = "FROM job_history WHERE completed_at < datetime('now', '-3 days') AND (status = 'Done')";
    match handle_request(prune(true), &mut q, "/dl", &clock()) {
        Action::CountHistory { statement } => {
            assert_eq!(statement, Some(format!("SELECT COUNT(*) {rows}")));
        }
        other => panic!("{other:?}"),
    }
    match handle_request(prune(false), &mut q, "/dl", &clock()) {
        Action::PruneHistory { statement } => assert_eq!(statement, Some(format!("DELETE {rows}"))),
        other => panic!("{other:?}"),
    }
    let nothing = Request::Prune { days: 3, statuses: vec![], dry_run: true };
    assert!(matches!(
        handle_request(nothing, &mut q, "/dl", &clock()),
        Action::CountHistory { statement: None }
    ));
    match history_response(vec![summary(1, "Done")]) {
        Response::JobList { jobs } => assert_eq!(jobs[0].id, 1),
        other => panic!("{other:?}"),
    }
    match prune_response(4, false) {
        Response::PruneResult { count, message } => {
            assert_eq!((count, message.as_str()), (4, "Pruned 4 old jobs from history"));
        }
        other => panic!("{other:?}"),
    }
    match prune_response(0, true) {
        Response::PruneResult { count, message } => {
            assert_eq!((count, message.as_str()), (0, "Would prune 0 old jobs from history"));
        }
        other => panic!("{other:?}"),
    }
}

#[test]
fn sockets_lie_with_the_data() {
    assert_eq!(socket_path(Some("/data".to_string())), "/data/shard/shard.sock");
    assert_eq!(socket_path(None), "./shard/shard.sock");
}

#[test]
fn stored_seconds_become_moments() {
    let (started, ended) = persisted_instants(Some(1_699_999_990), Some(1_700_000_001), &clock());
    assert_eq!(started, Some(90 * SEC));
    assert_eq!(ended, None);
    assert_eq!(persisted_instants(None, None, &clock()), (None, None));
}

#[test]
fn stored_jobs_come_back() {
    let mut q = QueueManager::new(1);
    let mut row = summary(3, "Paused");
    row.started_at = Some(1_699_999_000);
    row.ended_at = Some(1_699_999_500);
    row.downloaded = 7;
    assert!(needs_part_state(&row));
    let effects = restore_job(&mut q, &row, Some(70), &clock());
    assert_eq!(effects.len(), 2);
    match &effects[1] {
        Effect::Persist { id, status, downloaded, total_size } => {
            assert_eq!((*id, status.as_str(), *downloaded, *total_size), (3, "Paused", 7, 70));
        }
        other => panic!("{other:?}"),
    }
    let row = summary(4, "Pending");
    assert!(!needs_part_state(&row));
    assert_eq!(restore_job(&mut q, &row, Some(70), &clock()).len(), 1);
    let mut row = summary(5, "Paused");
    row.total_size = 9;
    assert!(!needs_part_state(&row));
    assert_eq!(restore_job(&mut q, &row, None, &clock()).len(), 1);
    let jobs = q.job_summaries(&clock());
    assert_eq!(jobs[0].started_at, Some(1_699_999_000));
    assert_eq!(jobs[0].ended_at, Some(1_699_999_500));
    let seen: Vec<(&str, u64)> = jobs.iter().map(|j| (j.status.as_str(), j.total_size)).collect();
    assert_eq!(seen, vec![("Paused", 70), ("Pending", 0), ("Paused", 9)]);
}

#[test]
fn subscriptions_are_recognised() {
    assert!(is_subscription(&subscribe_line()));
    assert!(!is_subscription("{\"type\":\"status\",\"all\":true}"));
    assert!(!is_subscription("{\"type\":\"unsubscribe\"}"));
}

#[test]
fn lines_are_framed() {
    assert_eq!(frame_line(Some("{}".to_string())), "{}\n");
    assert_eq!(
        frame_line(None),
        "{\"type\":\"error\",\"message\":\"serialization failed\"}\n"
    );
    assert_eq!(request_line("{}".to_string()), "{}\n");
    assert_eq!(subscribe_line(), "{\"type\":\"subscribe\",\"all\":true}\n");
    assert_eq!(message_of_line(&frame_line(Some("{\"a\":1}".to_string()))), "{\"a\":1}");
}

#[test]
fn subscribers_hear_of_changes_only() {
    let mut s = Subscription::new();
    assert!(s.update(vec![]).is_some());
    assert!(s.update(vec![]).is_none());
    match s.update(vec![summary(1, "Active")]) {
        Some(Response::Update { jobs }) => assert_eq!(jobs.len(), 1),
        other => panic!("{other:?}"),
    }
    assert!(s.update(vec![summary(1, "Active")]).is_none());
    let mut changed = summary(1, "Active");
    changed.downloaded = 1;
    assert!(s.update(vec![changed]).is_some());
}

#[test]
fn snapshots_are_compared_in_full() {
    let base = summary(1, "Active");
    assert!(same_summaries(&vec![base.clone()], &vec![summary(1, "Active")]));
    assert!(!same_summaries(&vec![base.clone()], &vec![]));
    let mut other = base.clone();
    other.error_msg = Some("x".to_string());
    assert!(!same_summaries(&vec![base.clone()], &vec![other]));
    let mut other = base.clone();
    other.speed_bps = Some(0);
    assert!(!same_summaries(&vec![base.clone()], &vec![other]));
    let mut other = base.clone();
    other.added_at = Some(0);
    assert!(base != other);
}

#[test]
fn streams_are_read_line_by_line() {
    assert!(matches!(stream_line(0, ""), StreamLine::Closed));
    assert!(matches!(stream_line(1, "\n"), StreamLine::Skip));
    match stream_line(4, " x \n") {
        StreamLine::Message(m) => assert_eq!(m, "x"),
        other => panic!("{other:?}"),
    }
}

#[test]
fn the_last_update_is_shown() {
    let mut s = Stream::new();
    assert!(!s.is_connected() && s.shown_jobs().is_empty());
    s.receive(Some(Response::Update { jobs: vec![summary(1, "Active"), summary(2, "Done")] }));
    s.receive(Some(Response::Update { jobs: vec![summary(3, "Active")] }));
    s.receive(None);
    s.receive(Some(Response::Subscribed));
    s.end(true);
    s.waited();
    assert_eq!(s.shown_jobs().iter().map(|j| j.id).collect::<Vec<u64>>(), vec![3]);
    s.receive(Some(Response::Update { jobs: vec![] }));
    assert!(s.shown_jobs().is_empty());
}

#[test]
fn lost_connections_are_made_again() {
    let mut s = Stream::new();
    assert_eq!(s.action(), StreamAction::Connect);
    s.confirm();
    s.receive(None);
    assert!(s.is_connected());
    assert_eq!(s.action(), StreamAction::Read);
    s.end(true);
    assert!(!s.is_connected());
    assert_eq!(s.action(), StreamAction::Wait { millis: 500 });
    s.waited();
    assert_eq!(s.action(), StreamAction::Connect);
    s.end(false);
    assert_eq!(s.action(), StreamAction::Wait { millis: 2000 });
    assert!(!s.is_connected());
}

#[test]
fn unsubscribing_ends_a_subscription() {
    assert!(ends_subscription(&Request::Unsubscribe));
    assert!(!ends_subscription(&Request::Subscribe { all: true }));
    assert!(!ends_subscription(&Request::Shutdown));
}

#[test]
fn client_failures_are_written() {
    assert_eq!(
        connect_failure("/s"),
        "Could not connect to shard daemon at /s.\nIs the daemon running? Start it with: shard daemon"
    );
    assert_eq!(bad_response("?"), "Bad response from daemon: ?");
}

#[test]
fn paused_jobs_survive_a_restart() {
    let mut q = QueueManager::new(1);
    add(&mut q, &["http://h/a"], None, 8);
    q.launch_next(0);
    let stop = TaskOutcome::Stopped { message: "Paused".to_string() };
    let effects = q.finish_task(8, stop, 30, 90, true, 0);
    let mut row = summary(8, "");
    match &effects[1] {
        Effect::Persist { status, downloaded, total_size, .. } => {
            row.status = status.clone();
            row.downloaded = *downloaded;
            row.total_size = *total_size;
        }
        other => panic!("{other:?}"),
    }
    let mut q = QueueManager::new(1);
    restore_job(&mut q, &row, None, &clock());
    assert_eq!(q.control_at(0), JobControl::Pause);
    let jobs = q.job_summaries(&clock());
    assert_eq!((jobs[0].downloaded, jobs[0].total_size), (30, 90));
    assert_eq!(q.resume(8).0.unwrap().position, 0);
}

#[test]
fn requests_touch_one_job() {
    let mut q = QueueManager::new(1);
    add(&mut q, &["http://h/a", "http://h/b", "http://h/c"], None, 1);
    let before = q.job_summaries(&clock());
    ask(&mut q, Request::Pause { id: 2 });
    ask(&mut q, Request::Cancel { id: 2 });
    ask(&mut q, Request::Resume { id: 2 });
    let after = q.job_summaries(&clock());
    assert!(before[0] == after[0] && before[2] == after[2]);
    assert_eq!((q.control_at(0), q.control_at(2)), (JobControl::Run, JobControl::Run));
    assert_eq!(q.control_at(1), JobControl::Cancel);
}

#[test]
fn the_socket_is_not_the_database() {
    let data = Some("/data".to_string());
    assert_ne!(socket_path(data.clone()), shard::db::schema::db_path(data));
}
