use shard::ipc::message::{JobSummary, Request};
use shard::ui::app::{read_submission, App, Key, KeyAction};
use shard::ui::figures::{
    fmt_epoch, format_bytes, format_duration, format_epoch_range, format_speed,
};
use shard::ui::tab::{count_shown, shown_jobs, Tab};
use shard::ui::view::{
    centered_rect, connection_label, cursor, detail, header_speed, placeholder, tab_titles,
    table_row, tone_of, total_speed, Area, Tone,
};

const SEC: i64 = 1_000_000_000;

fn job(id: u64, status: &str) -> JobSummary {
    JobSummary {
        id,
        url: format!("http://h/{id}.zip"),
        output_path: format!("/d/{id}.zip"),
        status: status.to_string(),
        total_size: 2048,
        downloaded: 1024,
        speed_bps: None,
        chunks_total: 4,
        chunks_done: 1,
        started_at: None,
        ended_at: None,
        added_at: None,
        error_msg: None,
    }
}

fn app_with(statuses: &[&str]) -> App {
    let mut app = App::new(None, 0);
    let jobs = statuses.iter().enumerate().map(|(i, s)| job(i as u64 + 1, s)).collect();
    app.poll_daemon(jobs, true, 0);
    app
}

fn bytes_by_float(bytes: u64) -> String {
    const KB: u64 = 1024;
    const MB: u64 = 1024 * KB;
    const GB: u64 = 1024 * MB;
    if bytes == 0 {
        "—".to_string()
    } else if bytes >= GB {
        format!("{:.1} GB", bytes as f64 / GB as f64)
    } else if bytes >= MB {
        format!("{:.1} MB", bytes as f64 / MB as f64)
    } else if bytes >= KB {
        format!("{:.1} KB", bytes as f64 / KB as f64)
    } else {
        format!("{} B", bytes)
    }
}

fn speed_by_float(bps: u64) -> String {
    const KB: u64 = 1024;
    const MB: u64 = 1024 * KB;
    if bps >= MB {
        format!("{:.1} MB/s", bps as f64 / MB as f64)
    } else if bps >= KB {
        format!("{:.1} KB/s", bps as f64 / KB as f64)
    } else {
        format!("{} B/s", bps)
    }
}

#[test]
fn sizes_are_rounded_as_floats_are() {
    let mut numbers: Vec<u64> = (0..70_000).collect();
    let mut x = 88_172_645_463_325_252u64;
    for _ in 0..200_000 {
        x ^= x << 13;
        x ^= x >> 7;
        x ^= x << 17;
        numbers.push(x >> (x % 60));
    }
    for shift in 10..64 {
        let unit = 1u64 << shift;
        for d in [0u64, 1, 2, 3] {
            numbers.push(unit.wrapping_add(d));
            numbers.push(unit.wrapping_sub(d + 1));
            numbers.push(unit + unit / 4 + d);
            numbers.push(unit + unit / 20 + d);
        }
    }
    numbers.push(u64::MAX);
    for n in numbers {
        assert_eq!(format_bytes(n), bytes_by_float(n), "{n}");
        assert_eq!(format_speed(n), speed_by_float(n), "{n}");
    }
}

#[test]
fn sizes_by_example() {
    assert_eq!(format_bytes(0), "—");
    assert_eq!(format_bytes(1023), "1023 B");
    assert_eq!(format_bytes(1536), "1.5 KB");
    assert_eq!(format_bytes(1280), "1.2 KB");
    assert_eq!(format_bytes(5 * 1024 * 1024), "5.0 MB");
    assert_eq!(format_bytes(3 * 1024 * 1024 * 1024), "3.0 GB");
    assert_eq!(format_speed(0), "0 B/s");
    assert_eq!(format_speed(2048), "2.0 KB/s");
    assert_eq!(format_speed(3 * 1024 * 1024 * 1024), "3072.0 MB/s");
}

#[test]
fn spans_by_example() {
    assert_eq!(format_duration(0), "0s");
    assert_eq!(format_duration(59), "59s");
    assert_eq!(format_duration(61), "1m 1s");
    assert_eq!(format_duration(3599), "59m 59s");
    assert_eq!(format_duration(3661), "1h 1m");
    assert_eq!(format_duration(360_000), "100h 0m");
}

#[test]
fn times_by_example() {
    assert_eq!(fmt_epoch(0), "00:00:00");
    assert_eq!(fmt_epoch(1_700_000_000), "22:13:20");
    assert_eq!(fmt_epoch(-1), "23:59:59");
    assert_eq!(fmt_epoch(-86400), "00:00:00");
    for e in [i64::MIN, i64::MAX, -86401, 86399] {
        let s = e.rem_euclid(86400);
        assert_eq!(fmt_epoch(e), format!("{:02}:{:02}:{:02}", s / 3600, s % 3600 / 60, s % 60));
    }
    assert_eq!(format_epoch_range(Some(1), Some(2), 9), "00:00:01 - 00:00:02");
    assert_eq!(format_epoch_range(Some(1), None, 9), "00:00:01 - 00:00:09");
    assert_eq!(format_epoch_range(None, Some(2), 9), "—");
    assert_eq!(format_epoch_range(None, None, 9), "—");
}

#[test]
fn stored_times_are_shown() {
    let epoch = shard::db::schema::sqlite_datetime_to_epoch("2023-05-06 07:08:09").unwrap();
    assert_eq!(fmt_epoch(epoch), "07:08:09");
}

#[test]
fn tabs_filter_by_status() {
    let all = ["Active", "Pending", "Paused", "Done", "Failed: x", "Failed", "Cancelled", ""];
    let shown = |tab: Tab| -> Vec<&str> { all.into_iter().filter(|s| tab.filter(s)).collect() };
    assert_eq!(shown(Tab::All).len(), all.len());
    assert_eq!(shown(Tab::Active), vec!["Active"]);
    assert_eq!(shown(Tab::Pending), vec!["Pending"]);
    assert_eq!(shown(Tab::Paused), vec!["Paused"]);
    assert_eq!(shown(Tab::Done), vec!["Done"]);
    assert_eq!(shown(Tab::Failed), vec!["Failed: x", "Failed"]);
}

#[test]
fn tabs_have_labels_and_go_round() {
    let mut tab = Tab::All;
    let mut labels: Vec<&str> = vec![];
    for _ in 0..6 {
        labels.push(tab.label());
        tab = tab.next();
    }
    assert_eq!(labels, vec!["All", "Active", "Pending", "Paused", "Done", "Failed"]);
    assert_eq!(tab, Tab::All);
}

#[test]
fn counts_add_up() {
    let app = app_with(&["Active", "Done", "Active", "Failed: x", "Pending", "Paused"]);
    assert_eq!(app.tab_counts(), (6, 2, 1, 1, 1, 1));
    assert_eq!(count_shown(&app.jobs, Tab::Active), 2);
    assert_eq!(shown_jobs(&app.jobs, Tab::Active)[1].id, 3);
    let titles: Vec<String> = tab_titles(&app).into_iter().map(|t| t.1).collect();
    assert_eq!(
        titles,
        vec![
            "◉ All (6)",
            "   ↓ Active (2)",
            "   ◌ Pending (1)",
            "   ⏸ Paused (1)",
            "   ✓ Done (1)",
            "   ✕ Failed (1)"
        ]
    );
}

#[test]
fn the_first_row_is_selected_at_the_start() {
    let app = app_with(&["Active", "Done"]);
    assert_eq!((app.selected, app.selected_job_id), (Some(0), Some(1)));
    let app = app_with(&[]);
    assert_eq!((app.selected, app.selected_job_id), (None, None));
    assert_eq!(App::new(Some(9), 0).max_connections, 9);
    assert_eq!(App::new(None, 0).max_connections, 4);
}

#[test]
fn rows_go_both_ways() {
    let mut app = app_with(&["Active", "Done", "Paused"]);
    for expected in [2, 3, 1] {
        app.next_row();
        assert_eq!(app.selected_job_id, Some(expected));
    }
    for expected in [3, 2, 1] {
        app.prev_row();
        assert_eq!(app.selected_job_id, Some(expected));
        assert_eq!(app.selected, Some(expected as usize - 1));
    }
    let mut app = app_with(&[]);
    app.next_row();
    app.prev_row();
    assert_eq!(app.selected, None);
}

#[test]
fn the_selection_follows_the_job() {
    let mut app = app_with(&["Active", "Done", "Paused"]);
    app.next_row();
    app.poll_daemon(vec![job(9, "Active"), job(8, "Active"), job(2, "Done")], true, 0);
    assert_eq!((app.selected, app.selected_job_id), (Some(2), Some(2)));
    app.poll_daemon(vec![job(9, "Active"), job(8, "Active"), job(7, "Done")], true, 0);
    assert_eq!((app.selected, app.selected_job_id), (Some(2), Some(7)));
    app.poll_daemon(vec![job(9, "Active")], true, 0);
    assert_eq!((app.selected, app.selected_job_id), (None, None));
    assert!(app.selected_job().is_none());
    app.next_row();
    assert_eq!((app.selected, app.selected_job_id), (Some(0), Some(9)));
    app.select_by_id(None);
    app.prev_row();
    assert_eq!(app.selected_job_id, Some(9));
}

#[test]
fn the_next_tab_picks_its_jobs() {
    let mut app = app_with(&["Done", "Active", "Active"]);
    app.next_tab();
    assert_eq!(app.current_tab, Tab::Active);
    assert_eq!(app.filtered_jobs.len(), 2);
    assert_eq!((app.selected, app.selected_job_id), (Some(0), Some(2)));
    app.next_tab();
    assert_eq!((app.selected, app.selected_job_id), (None, None));
}

#[test]
fn silence_is_an_error_after_three_seconds() {
    let mut app = App::new(None, 0);
    assert!(app.poll_due(0));
    app.poll_daemon(vec![], false, 0);
    assert_eq!(app.error.as_deref(), Some("Daemon unreachable"));
    assert_eq!(placeholder(&app), "No connection to daemon");
    assert_eq!(connection_label(&app), "○ offline");
    assert!(!app.poll_due(199_999_999));
    assert!(app.poll_due(200_000_000));
    app.poll_daemon(vec![], true, SEC);
    assert_eq!(app.error, None);
    assert_eq!(placeholder(&app), "No downloads — press a to add a URL");
    assert_eq!(connection_label(&app), "● connected");
    app.poll_daemon(vec![], false, 4 * SEC);
    assert_eq!(app.error, None);
    app.poll_daemon(vec![], false, 4 * SEC + 1);
    assert!(app.error.is_some());
    app.poll_daemon(vec![job(1, "Active")], false, 5 * SEC);
    app.poll_daemon(vec![job(1, "Active")], false, 6 * SEC);
    assert_eq!(app.error, None);
}

#[test]
fn lines_become_requests() {
    let read = |s: &str| match read_submission(s, 4) {
        Some(Request::Add { urls, output_dir, connections, headers }) => {
            assert_eq!(output_dir, None);
            Some((urls, connections, headers))
        }
        Some(other) => panic!("{other:?}"),
        None => None,
    };
    assert_eq!(read(""), None);
    assert_eq!(read("   "), None);
    assert_eq!(read("ftp://h/x"), None);
    let (urls, connections, headers) = read(" \"http://h/a\"  'https://h/b' junk ").unwrap();
    assert_eq!(urls, vec!["http://h/a", "https://h/b"]);
    assert_eq!(connections, 4);
    assert!(headers.is_empty());
    let (_, connections, headers) = read("http://h/a -c 9 -H K:v:w --header bad -H").unwrap();
    assert_eq!(connections, 9);
    assert_eq!(headers, vec![("K".to_string(), "v:w".to_string())]);
    assert_eq!(read("http://h/a -c 256").unwrap().1, 4);
    assert_eq!(read("http://h/a --connections 7 -c").unwrap().1, 7);
    assert_eq!(read("-c http://h/a"), None);
}

#[test]
fn keys_move_and_quit() {
    let mut app = app_with(&["Active", "Done"]);
    assert!(matches!(app.handle_key(Key::Down, false), KeyAction::Nothing));
    assert_eq!(app.selected_job_id, Some(2));
    app.handle_key(Key::Char('k'), false);
    assert_eq!(app.selected_job_id, Some(1));
    app.handle_key(Key::Char('j'), true);
    app.handle_key(Key::Up, false);
    assert_eq!(app.selected_job_id, Some(1));
    app.handle_key(Key::Tab, false);
    assert_eq!(app.current_tab, Tab::Active);
    app.handle_key(Key::Char('c'), false);
    app.handle_key(Key::Other, true);
    app.handle_key(Key::Enter, false);
    assert!(!app.should_quit);
    app.handle_key(Key::Char('c'), true);
    assert!(app.should_quit);
    let mut app = app_with(&[]);
    app.handle_key(Key::Char('q'), false);
    assert!(app.should_quit);
}

#[test]
fn keys_ask_the_daemon() {
    let mut app = app_with(&["Active", "Paused", "Done"]);
    assert!(matches!(
        app.handle_key(Key::Char('p'), false),
        KeyAction::Send(Request::Pause { id: 1 })
    ));
    app.next_row();
    assert!(matches!(
        app.handle_key(Key::Char('p'), false),
        KeyAction::Send(Request::Resume { id: 2 })
    ));
    app.next_row();
    assert!(matches!(app.handle_key(Key::Char('p'), false), KeyAction::Poll));
    assert!(matches!(
        app.handle_key(Key::Char('x'), false),
        KeyAction::Send(Request::Cancel { id: 3 })
    ));
    let mut app = app_with(&[]);
    assert!(matches!(app.handle_key(Key::Char('p'), false), KeyAction::Nothing));
    assert!(matches!(app.handle_key(Key::Char('x'), false), KeyAction::Nothing));
}

#[test]
fn the_dialog_takes_the_keys() {
    let mut app = app_with(&["Active"]);
    app.handle_key(Key::Char('a'), false);
    assert!(app.input_mode);
    for c in "http://h/qx".chars() {
        assert!(matches!(app.handle_key(Key::Char(c), false), KeyAction::Nothing));
    }
    app.handle_key(Key::Backspace, false);
    app.handle_key(Key::Down, false);
    assert_eq!(app.input_buffer, "http://h/q");
    assert!(!app.should_quit);
    match app.handle_key(Key::Enter, false) {
        KeyAction::Send(Request::Add { urls, .. }) => assert_eq!(urls, vec!["http://h/q"]),
        other => panic!("{other:?}"),
    }
    assert!(!app.input_mode && app.input_buffer.is_empty());
    app.handle_key(Key::Char('a'), false);
    app.handle_key(Key::Backspace, false);
    assert!(matches!(app.handle_key(Key::Enter, false), KeyAction::Nothing));
    app.handle_key(Key::Char('a'), false);
    app.handle_key(Key::Char('z'), false);
    app.handle_key(Key::Esc, false);
    assert!(!app.input_mode && app.input_buffer.is_empty());
}

#[test]
fn ticks_wrap() {
    let mut app = App::new(None, 0);
    app.tick();
    assert_eq!(app.animation_tick, 1);
    app.animation_tick = usize::MAX;
    app.tick();
    assert_eq!(app.animation_tick, 0);
    assert_eq!(cursor(0), "█");
    assert_eq!(cursor(1), "");
}

#[test]
fn statuses_have_tones_and_badges() {
    let cases = [
        ("Active", Tone::Active, "⠙ DL"),
        ("Pending", Tone::Pending, "◌ QUEUED"),
        ("Paused", Tone::Paused, "⏸ PAUSED"),
        ("Done", Tone::Done, "✓ DONE"),
        ("Cancelled", Tone::Cancelled, "✗ CANCELLED"),
        ("Failed: Cancelled", Tone::Cancelled, "✗ CANCELLED"),
        ("Failed: x", Tone::Failed, "✗ FAILED"),
        ("Odd", Tone::Other, "Odd"),
    ];
    for (status, tone, badge) in cases {
        assert_eq!(tone_of(status), tone);
        let row = table_row(&job(1, status), 21, 0, "0", 0);
        assert_eq!((row.tone, row.badge.as_str()), (tone, badge));
    }
}

#[test]
fn rows_show_the_job() {
    let mut j = job(3, "Active");
    j.speed_bps = Some(10);
    j.started_at = Some(60);
    let row = table_row(&j, 0, 7, "50", 120);
    assert_eq!(row.id, "3");
    assert_eq!(row.time, "00:01:00 - 00:02:00");
    assert_eq!(row.file, "3.zip");
    assert_eq!(row.progress, "██████▓▒▒▒▒▒▒▒ 50%");
    assert_eq!(row.size, "2.0 KB");
    assert_eq!(row.speed, "10 B/s");
    assert_eq!(row.eta, "1m 42s");
    let row = table_row(&job(3, "Done"), 0, 14, "100", 120);
    assert_eq!(row.progress, format!("{} 100%", "█".repeat(14)));
    assert_eq!((row.speed.as_str(), row.eta.as_str()), ("—", "—"));
    j.speed_bps = Some(0);
    let row = table_row(&j, 1, 1, "1", 120);
    assert_eq!((row.speed.as_str(), row.eta.as_str()), ("0 B/s", "—"));
    assert_eq!(row.progress, format!("{} 1%", "▒".repeat(14)));
    j.speed_bps = Some(5);
    j.downloaded = j.total_size;
    let row = table_row(&j, 2, 0, "0", 120);
    assert_eq!(row.eta, "—");
    assert_eq!(row.progress, format!("{} 0%", "▒".repeat(14)));
}

#[test]
fn details_show_the_job() {
    let d = detail(&job(3, "Active"), "50");
    assert_eq!(d.url, "http://h/3.zip");
    assert_eq!(d.output_path, "/d/3.zip");
    assert_eq!(d.chunks, "■□□□  1/4");
    assert_eq!(d.progress, "1.0 KB / 2.0 KB (50%)");
}

#[test]
fn speeds_are_added() {
    let mut app = app_with(&["Active", "Active", "Done"]);
    assert_eq!(total_speed(&app), Some(0));
    assert_eq!(header_speed(0), "—");
    app.filtered_jobs[0].speed_bps = Some(1000);
    app.filtered_jobs[1].speed_bps = Some(48);
    assert_eq!(total_speed(&app), Some(1048));
    assert_eq!(header_speed(1048), "1.0 KB/s");
    app.filtered_jobs[0].speed_bps = Some(u64::MAX);
    assert_eq!(total_speed(&app), None);
}

#[test]
fn the_dialog_is_centered() {
    for (w, h) in [(80u16, 24u16), (100, 40), (0, 0), (7, 3), (300, 200)] {
        let area = Area { x: 3, y: 2, width: w, height: h };
        let r = centered_rect(62, 25, area);
        assert!(r.x >= area.x && r.x + r.width <= area.x + area.width);
        assert!(r.y >= area.y && r.y + r.height <= area.y + area.height);
    }
    let r = centered_rect(50, 50, Area { x: 0, y: 0, width: 100, height: 40 });
    assert_eq!((r.x, r.y, r.width, r.height), (25, 10, 50, 20));
    let r = centered_rect(62, 25, Area { x: 0, y: 0, width: 80, height: 24 });
    assert_eq!((r.x, r.y, r.width, r.height), (15, 9, 50, 6));
}

fn edge(start: u16, size: u16, percent: u16) -> u16 {
    let room = size.min(u16::MAX - start) as u32;
    start + ((percent as u32 * room + 50) / 100) as u16
}

#[test]
fn the_dialog_is_rounded_to_cells() {
    let starts = [0u16, 1, 7, 65_000, 65_535];
    let sizes = [0u16, 1, 2, 3, 10, 33, 50, 79, 80, 101, 120, 255, 999, 20_000, 65_535];
    for percent in 0..=100u16 {
        for (i, size) in sizes.into_iter().enumerate() {
            let (x, y) = (starts[i % 5], starts[(i + percent as usize) % 5]);
            let (width, height) = (size, sizes[(i + percent as usize) % sizes.len()]);
            let (px, py) = (percent, (percent * 7) % 101);
            let r = centered_rect(px, py, Area { x, y, width, height });
            let (left, top) = ((100 - px) / 2, (100 - py) / 2);
            assert_eq!((r.x, r.y), (edge(x, width, left), edge(y, height, top)));
            assert_eq!(r.x + r.width, edge(x, width, left + px), "{px} of {width} at {x}");
            assert_eq!(r.y + r.height, edge(y, height, top + py), "{py} of {height} at {y}");
        }
    }
}
