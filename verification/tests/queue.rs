use shard::clock::Clock;
use shard::queue::job::{DownloadJob, JobControl, JobStatus};
use shard::queue::manager::{Begin, Effect, ManagerEvent, QueueManager, TaskOutcome};

const SEC: i64 = 1_000_000_000;

fn clock(mono: i64) -> Clock {
    Clock { mono, unix: 1_700_000_000 * SEC + mono }
}

fn queue_of(n: usize) -> QueueManager {
    let mut q = QueueManager::new(2);
    for i in 0..n {
        q.add(format!("http://h/{i}"), format!("/d/{i}"), 4, vec![], 0);
    }
    q
}

fn statuses(q: &mut QueueManager) -> Vec<String> {
    q.job_summaries(&clock(0)).iter().map(|s| s.status.clone()).collect()
}

fn ids(q: &mut QueueManager) -> Vec<u64> {
    q.job_summaries(&clock(0)).iter().map(|s| s.id).collect()
}

fn stopped(message: &str) -> TaskOutcome {
    TaskOutcome::Stopped { message: message.to_string() }
}

fn persisted(effects: &[Effect]) -> Vec<(i64, String, u64, u64)> {
    effects
        .iter()
        .filter_map(|e| match e {
            Effect::Persist { id, status, downloaded, total_size } => {
                Some((*id, status.clone(), *downloaded, *total_size))
            }
            _ => None,
        })
        .collect()
}

#[test]
fn a_new_queue_is_empty() {
    let mut q = QueueManager::new(3);
    assert_eq!(q.max_concurrent(), 3);
    assert_eq!(q.len(), 0);
    assert!(q.job_summaries(&clock(0)).is_empty());
    assert_eq!(q.print_status(&vec![]), "Queue is empty.\n");
}

#[test]
fn numbers_are_fresh() {
    let mut q = QueueManager::new(3);
    let (a, e) = q.add("u".to_string(), "p".to_string(), 1, vec![], 0);
    assert_eq!(a, 1);
    assert_eq!(e, ManagerEvent::JobsChanged);
    q.add_with_id(10, "u".to_string(), "p".to_string(), 1, vec![], None, 0, 0, None, None, 0);
    q.add_with_id(4, "u".to_string(), "p".to_string(), 1, vec![], None, 0, 0, None, None, 0);
    let (b, _) = q.add("u".to_string(), "p".to_string(), 1, vec![], 0);
    assert_eq!(b, 11);
    assert_eq!(ids(&mut q), vec![1, 10, 4, 11]);
}

#[test]
fn restored_jobs_keep_their_state() {
    let mut q = QueueManager::new(1);
    let started = Some(-5 * SEC);
    let ended = Some(-2 * SEC);
    q.add_with_id(
        7,
        "u".to_string(),
        "p".to_string(),
        3,
        vec![("k".to_string(), "v".to_string())],
        Some(JobStatus::Paused),
        100,
        40,
        started,
        ended,
        0,
    );
    let s = &q.job_summaries(&clock(0))[0];
    assert_eq!(s.status, "Paused");
    assert_eq!((s.total_size, s.downloaded, s.chunks_total), (100, 40, 3));
    assert_eq!(s.started_at, Some(1_700_000_000 - 5));
    assert_eq!(s.ended_at, Some(1_700_000_000 - 2));
    assert!(q.launch_next(0).is_none());
    let launch = q.resume(7).0.unwrap();
    assert_eq!(launch.id, 7);
    assert_eq!(launch.headers, vec![("k".to_string(), "v".to_string())]);
}

#[test]
fn jobs_start_in_order() {
    let mut q = queue_of(3);
    for i in 0..3u64 {
        let launch = q.launch_next(5).unwrap();
        assert_eq!(launch.id, i + 1);
        assert_eq!(launch.position, i as usize);
        assert_eq!(launch.url, format!("http://h/{i}"));
        assert_eq!(launch.output_path, format!("/d/{i}"));
        assert_eq!(launch.connections, 4);
    }
    assert!(q.launch_next(5).is_none());
    assert_eq!(statuses(&mut q), vec!["Active", "Active", "Active"]);
}

#[test]
fn moving_up_changes_the_order() {
    let mut q = queue_of(3);
    q.move_up(3);
    assert_eq!(ids(&mut q), vec![1, 3, 2]);
    q.move_up(1);
    q.move_up(9);
    assert_eq!(ids(&mut q), vec![1, 3, 2]);
    // Signals still reach the right jobs.
    assert_eq!(q.pause(2).0.unwrap().position, 2);
    assert_eq!(q.pause(3).0.unwrap().position, 1);
    q.move_up(2);
    assert_eq!(ids(&mut q), vec![1, 2, 3]);
    assert_eq!(q.launch_next(0).unwrap().id, 1);
    assert_eq!(q.launch_next(0).unwrap().id, 2);
}

#[test]
fn pause_signals_the_job() {
    let mut q = queue_of(2);
    let (signal, event) = q.pause(2);
    let signal = signal.unwrap();
    assert_eq!((signal.position, signal.control), (1, JobControl::Pause));
    assert_eq!(event, ManagerEvent::JobsChanged);
    assert_eq!((q.control_at(0), q.control_at(1)), (JobControl::Run, JobControl::Pause));
    assert!(q.pause(5).0.is_none());
    assert_eq!(statuses(&mut q), vec!["Pending", "Pending"]);
}

#[test]
fn a_paused_transfer_can_be_resumed() {
    let mut q = queue_of(1);
    q.launch_next(0);
    let effects = q.finish_task(1, stopped("Paused"), 40, 100, true, 3 * SEC);
    assert_eq!(persisted(&effects), vec![(1, "Paused".to_string(), 40, 100)]);
    assert!(matches!(effects[0], Effect::Emit(ManagerEvent::JobsChanged)));
    assert_eq!(statuses(&mut q), vec!["Paused"]);
    assert_eq!(q.job_summaries(&clock(3 * SEC))[0].ended_at, Some(1_700_000_003));
    let (launch, _) = q.resume(1);
    assert_eq!(launch.unwrap().id, 1);
    let s = &q.job_summaries(&clock(4 * SEC))[0];
    assert_eq!(s.status, "Active");
    assert_eq!(s.ended_at, None);
    assert!(q.resume(1).0.is_none());
    assert!(q.resume(2).0.is_none());
}

#[test]
fn completed_jobs_are_done() {
    let mut q = queue_of(1);
    q.launch_next(0);
    let outcome = TaskOutcome::Completed { downloaded: 90, total_size: 100 };
    let effects = q.finish_task(1, outcome, 1, 2, true, SEC);
    assert_eq!(persisted(&effects), vec![(1, "Done".to_string(), 90, 100)]);
    let s = &q.job_summaries(&clock(SEC))[0];
    assert_eq!((s.status.as_str(), s.total_size), ("Done", 100));
    assert!(q.pause(1).0.is_none());
    assert!(q.cancel(1).is_none());
}

#[test]
fn failures_and_cancellations_are_told_apart() {
    let mut q = queue_of(2);
    q.launch_next(0);
    q.launch_next(0);
    let effects = q.finish_task(1, stopped("Cancelled"), 5, 6, true, 0);
    assert_eq!(persisted(&effects), vec![(1, "Cancelled".to_string(), 0, 0)]);
    let effects = q.finish_task(2, stopped("HTTP error: 404"), 5, 6, true, 0);
    assert_eq!(persisted(&effects), vec![(2, "Failed: HTTP error: 404".to_string(), 0, 0)]);
    assert_eq!(statuses(&mut q), vec!["Failed: Cancelled", "Failed: HTTP error: 404"]);
    let effects = q.finish_task(2, stopped("x"), 5, 6, false, 0);
    assert!(persisted(&effects).is_empty());
    assert_eq!(effects.len(), 1);
}

#[test]
fn cancelled_jobs_do_not_begin() {
    let mut q = queue_of(1);
    let (signal, _) = q.cancel(1).unwrap();
    assert_eq!(signal.unwrap().control, JobControl::Cancel);
    assert_eq!(statuses(&mut q), vec!["Pending"]);
    // A cancelled number is out of control.
    assert!(q.cancel(1).is_none());
    assert!(q.pause(1).0.is_none());
    q.launch_next(0);
    let effects = match q.begin_task(1, JobControl::Cancel, true, 0) {
        Begin::Refused(effects) => effects,
        other => panic!("{other:?}"),
    };
    assert_eq!(persisted(&effects), vec![(1, "Cancelled".to_string(), 0, 0)]);
    assert_eq!(effects.len(), 2);
    assert_eq!(statuses(&mut q), vec!["Failed: Cancelled"]);
}

#[test]
fn cancelled_paused_jobs_fail_at_once() {
    let mut q = queue_of(1);
    q.launch_next(0);
    q.finish_task(1, stopped("Paused"), 0, 0, false, 0);
    let (signal, event) = q.cancel(1).unwrap();
    assert!(signal.is_none());
    assert_eq!(event, ManagerEvent::JobsChanged);
    assert_eq!(statuses(&mut q), vec!["Failed: Cancelled"]);
    assert!(q.resume(1).0.is_none());
}

#[test]
fn transfers_begin_otherwise() {
    let mut q = queue_of(1);
    q.launch_next(0);
    let effects = q.announce_task(1, true);
    assert_eq!(persisted(&effects), vec![(1, "Active".to_string(), 0, 0)]);
    assert_eq!(effects.len(), 2);
    assert_eq!(q.announce_task(1, false).len(), 1);
    assert!(matches!(q.begin_task(1, JobControl::Run, true, 0), Begin::Go));
    assert!(matches!(q.begin_task(1, JobControl::Pause, false, 0), Begin::Go));
    assert_eq!(statuses(&mut q), vec!["Active"]);
}

#[test]
fn there_is_one_runner() {
    let mut q = queue_of(0);
    assert!(q.try_start_runner());
    assert!(!q.try_start_runner());
    q.stop_runner();
    assert!(q.try_start_runner());
}

#[test]
fn speed_is_sampled_each_second() {
    let mut q = queue_of(1);
    q.launch_next(0);
    q.record_progress(0, 4000, 10_000);
    let s = q.job_summaries(&clock(SEC / 2)).remove(0);
    assert_eq!((s.speed_bps, s.downloaded, s.total_size), (None, 4000, 10_000));
    let s = q.job_summaries(&clock(2 * SEC)).remove(0);
    assert_eq!(s.speed_bps, Some(2000));
    // Without progress the last speed stays.
    let s = q.job_summaries(&clock(5 * SEC)).remove(0);
    assert_eq!(s.speed_bps, Some(2000));
    q.finish_task(1, stopped("Paused"), 0, 0, false, 6 * SEC);
    let s = q.job_summaries(&clock(7 * SEC)).remove(0);
    assert_eq!(s.speed_bps, None);
}

#[test]
fn a_job_stands_for_itself() {
    let mut j = DownloadJob::new(3, "u".to_string(), "p".to_string(), 4, vec![], 0);
    assert_eq!(j.bytes_downloaded(), 0);
    assert_eq!(j.total_size_loaded(), 0);
    j.set_total_size(50);
    assert_eq!(j.total_size_loaded(), 50);
    j.downloaded = 30;
    j.update_speed(3 * SEC);
    assert_eq!(j.speed_bps(), 10);
    j.send_control(JobControl::Cancel);
    assert_eq!(j.control, JobControl::Cancel);
    j.set_status(JobStatus::Active, SEC);
    assert_eq!(j.ended_at, None);
    j.set_status(JobStatus::Failed("x".to_string()), 2 * SEC);
    assert_eq!(j.ended_at, Some(2 * SEC));
    assert_eq!(j.status.to_text(), "Failed: x");
}

#[test]
fn statuses_are_written() {
    assert_eq!(JobStatus::Pending.to_text(), "Pending");
    assert_eq!(JobStatus::Active.to_text(), "Active");
    assert_eq!(JobStatus::Paused.to_text(), "Paused");
    assert_eq!(JobStatus::Done.to_text(), "Done");
    let failed = JobStatus::Failed("a".to_string());
    assert_eq!(failed.clone().to_text(), "Failed: a");
    assert!(failed == failed.clone() && JobStatus::Done == JobStatus::Done);
    assert!(failed != JobStatus::Failed("b".to_string()) && failed != JobStatus::Done);
}

#[test]
fn the_queue_is_printed() {
    let mut q = QueueManager::new(1);
    q.add("http://h/short".to_string(), "p".to_string(), 1, vec![], 0);
    q.add(format!("http://h/{}", "x".repeat(60)), "p".to_string(), 1, vec![], 0);
    assert!(q.can_print());
    let printed = q.print_status(&vec!["0.0".to_string(), "12.5".to_string()]);
    let mut expected = format!(
        "\n{:<5} {:<50} {:<10} {:<8}\n{}\n",
        "ID",
        "URL",
        "STATUS",
        "PROGRESS",
        "─".repeat(80)
    );
    expected.push_str(&format!("{:<5} {:<50} Pending 0.0%\n", 1, "http://h/short"));
    expected.push_str(&format!(
        "{:<5} {:<50} Pending 12.5%\n\n",
        2,
        format!("http://h/{}…", "x".repeat(38))
    ));
    assert_eq!(printed, expected);
    q.add(format!("{}é{}", "x".repeat(46), "y".repeat(10)), "p".to_string(), 1, vec![], 0);
    assert!(!q.can_print());
}

#[test]
fn moments_survive_a_restart() {
    let c = clock(50 * SEC);
    let then = c.moment_of(1_699_999_000).unwrap();
    let later = clock(90 * SEC);
    assert_eq!(later.epoch_of(then), 1_699_999_000);
    assert_eq!(c.moment_of(1_800_000_000), None);
    assert_eq!(c.epoch_of(i64::MIN), 0);
    assert_eq!(c.epoch_of(i64::MAX), 1_700_000_050);
}

#[test]
fn ended_jobs_stay_ended() {
    let mut q = queue_of(3);
    q.launch_next(0);
    q.finish_task(1, TaskOutcome::Completed { downloaded: 1, total_size: 1 }, 1, 1, false, 0);
    let (_, _) = q.pause(1);
    q.cancel(1);
    q.resume(1);
    q.launch_next(0);
    q.finish_task(2, stopped("Paused"), 0, 0, false, 0);
    q.cancel(2);
    q.resume(2);
    q.launch_next(0);
    q.record_progress(0, 5, 6);
    assert_eq!(statuses(&mut q), vec!["Done", "Failed: Cancelled", "Active"]);
    assert_eq!(ids(&mut q), vec![1, 2, 3]);
}

#[test]
fn a_cancelled_job_keeps_its_signal() {
    let mut q = queue_of(2);
    q.cancel(1);
    q.pause(1);
    q.pause(2);
    q.resume(1);
    q.launch_next(0);
    assert_eq!(q.control_at(0), JobControl::Cancel);
    assert_eq!(q.control_at(1), JobControl::Pause);
}

#[test]
fn transfers_stay_within_the_limit() {
    let mut q = queue_of(9);
    while q.launch_next(0).is_some() {}
    assert!(matches!(q.begin_task(1, JobControl::Run, false, 0), Begin::Go));
    assert!(matches!(q.begin_task(2, JobControl::Run, false, 0), Begin::Go));
    assert!(matches!(q.begin_task(3, JobControl::Run, false, 0), Begin::Full));
    assert!(matches!(q.begin_task(4, JobControl::Cancel, false, 0), Begin::Refused(_)));
    assert!(matches!(q.begin_task(3, JobControl::Run, false, 0), Begin::Full));
    let done = TaskOutcome::Completed { downloaded: 1, total_size: 1 };
    for (id, outcome) in [
        (1, done),
        (3, stopped("Paused")),
        (5, stopped("Cancelled")),
        (6, stopped("HTTP error: 500")),
    ] {
        q.finish_task(id, outcome, 0, 0, false, 0);
        assert!(matches!(q.begin_task(7, JobControl::Run, false, 0), Begin::Go));
        assert!(matches!(q.begin_task(8, JobControl::Run, false, 0), Begin::Full));
    }
    q.abandon_task();
    assert!(matches!(q.begin_task(8, JobControl::Run, false, 0), Begin::Go));
    assert!(matches!(QueueManager::new(0).begin_task(1, JobControl::Run, false, 0), Begin::Full));
}

#[test]
fn completed_chunks_are_shown() {
    let mut q = queue_of(2);
    q.record_chunks(1, 3);
    q.record_progress(1, 30, 40);
    let jobs = q.job_summaries(&clock(0));
    assert_eq!((jobs[0].chunks_done, jobs[1].chunks_done), (0, 3));
    assert_eq!(q.progress_at(1), (30, 40));
}
