use shard::cli::{
    can_print, parse_header, parse_headers, print_response, resolve_output, Cli, Commands, DevStart,
    Plan, DEV_LOOKS,
};
use shard::config::Settings;
use shard::ipc::message::{JobSummary, Request, Response};

fn settings() -> Settings {
    let mut s = Settings::with_download_dir(Some("/dl".to_string()));
    s.prune_days = 12;
    s.prune_statuses = vec!["Done".to_string()];
    s
}

fn plan(command: Commands) -> Plan {
    Cli { command }.plan(&settings())
}

fn request(command: Commands) -> Request {
    match plan(command) {
        Plan::Send { warnings, request } => {
            assert!(warnings.is_empty());
            request
        }
        other => panic!("{other:?}"),
    }
}

fn job(id: u64, url: &str, status: &str) -> JobSummary {
    JobSummary {
        id,
        url: url.to_string(),
        output_path: "p".to_string(),
        status: status.to_string(),
        total_size: 0,
        downloaded: 0,
        speed_bps: None,
        chunks_total: 4,
        chunks_done: 0,
        started_at: None,
        ended_at: None,
        added_at: None,
        error_msg: None,
    }
}

#[test]
fn output_defaults_to_the_download_directory() {
    assert_eq!(resolve_output("http://h/f.zip", None, "/dl"), "/dl/f.zip");
    assert_eq!(resolve_output("http://h/", None, "/dl/"), "/dl/downloaded_file");
    assert_eq!(resolve_output("http://h/f.zip", Some("x".to_string()), "/dl"), "x");
}

#[test]
fn get_downloads_directly() {
    let command = Commands::Get { url: "http://h/f".to_string(), output: None, connections: 5 };
    match plan(command) {
        Plan::Download { url, output_path, connections } => {
            assert_eq!((url.as_str(), output_path.as_str(), connections), ("http://h/f", "/dl/f", 5));
        }
        other => panic!("{other:?}"),
    }
}

#[test]
fn daemon_announces_itself() {
    match plan(Commands::Daemon { concurrent: 3 }) {
        Plan::RunDaemon { banner, concurrent } => {
            assert_eq!(banner, "Starting shard daemon (max 3 concurrent)…");
            assert_eq!(concurrent, 3);
        }
        other => panic!("{other:?}"),
    }
    assert!(matches!(plan(Commands::Tui), Plan::Tui));
    assert!(matches!(plan(Commands::Dev { concurrent: 2 }), Plan::Dev { concurrent: 2 }));
    assert!(matches!(plan(Commands::Config), Plan::ShowConfig));
}

#[test]
fn add_reads_headers() {
    let command = Commands::Add {
        urls: vec!["http://h/f".to_string()],
        dir: None,
        connections: 4,
        header: vec![" A : b:c ".to_string(), "bad".to_string(), "X:".to_string()],
    };
    match plan(command) {
        Plan::Send { warnings, request } => {
            assert_eq!(
                warnings,
                vec!["Warning: invalid header format 'bad', expected 'Key: Value'"]
            );
            match request {
                Request::Add { urls, output_dir, connections, headers } => {
                    assert_eq!(urls, vec!["http://h/f"]);
                    assert_eq!(output_dir, Some("/dl".to_string()));
                    assert_eq!(connections, 4);
                    assert_eq!(
                        headers,
                        vec![
                            ("A".to_string(), "b:c".to_string()),
                            ("X".to_string(), "".to_string())
                        ]
                    );
                }
                other => panic!("{other:?}"),
            }
        }
        other => panic!("{other:?}"),
    }
    let command = Commands::Add {
        urls: vec![],
        dir: Some("/other".to_string()),
        connections: 4,
        header: vec![],
    };
    match request(command) {
        Request::Add { output_dir, .. } => assert_eq!(output_dir, Some("/other".to_string())),
        other => panic!("{other:?}"),
    }
}

#[test]
fn headers_are_read_back() {
    assert_eq!(
        parse_header("Cookie: a=b; c=d"),
        Some(("Cookie".to_string(), "a=b; c=d".to_string()))
    );
    assert_eq!(parse_header(":"), Some(("".to_string(), "".to_string())));
    assert_eq!(parse_header("nothing"), None);
    let (headers, warnings) = parse_headers(&vec![]);
    assert!(headers.is_empty() && warnings.is_empty());
}

#[test]
fn commands_become_requests() {
    assert!(matches!(request(Commands::Queue { all: true }), Request::Status { all: true }));
    assert!(matches!(request(Commands::Pause { id: 3 }), Request::Pause { id: 3 }));
    assert!(matches!(request(Commands::Cancel { id: 3 }), Request::Cancel { id: 3 }));
    assert!(matches!(request(Commands::Shutdown), Request::Shutdown));
    assert!(matches!(request(Commands::History { limit: 9 }), Request::History { limit: 9 }));
    for (days, expected) in [(None, 12), (Some(3), 3)] {
        match request(Commands::Prune { dry_run: true, days }) {
            Request::Prune { days, statuses, dry_run } => {
                assert_eq!((days, dry_run), (expected, true));
                assert_eq!(statuses, vec!["Done"]);
            }
            other => panic!("{other:?}"),
        }
    }
}

#[test]
fn responses_are_printed() {
    let none: Vec<String> = vec![];
    let p = print_response(&Response::Queued { ids: vec![4, 5] }, &none);
    assert_eq!((p.out.as_str(), p.err.as_str()), ("Queued #4\nQueued #5\n", ""));
    let p = print_response(&Response::Success { message: "ok".to_string() }, &none);
    assert_eq!((p.out.as_str(), p.err.as_str()), ("ok\n", ""));
    let p = print_response(&Response::PruneResult { count: 1, message: "m".to_string() }, &none);
    assert_eq!(p.out, "m\n");
    let p = print_response(&Response::Error { message: "no".to_string() }, &none);
    assert_eq!((p.out.as_str(), p.err.as_str()), ("", "Error: no\n"));
    let p = print_response(&Response::Subscribed, &none);
    assert_eq!(p.out, "Subscribed to real-time updates\n");
    let p = print_response(&Response::JobList { jobs: vec![] }, &none);
    assert_eq!(p.out, "Queue is empty.\n");
}

#[test]
fn tables_are_printed() {
    let long = "x".repeat(49);
    let full = "y".repeat(48);
    let jobs = vec![job(1, &long, "Active"), job(22, &full, "Failed: everything")];
    let percents = vec!["0.0".to_string(), "100.0".to_string()];
    let mut expected = format!(
        "\n{:<5} {:<50} {:<12} {:<8}\n{}\n",
        "ID",
        "URL",
        "STATUS",
        "PROGRESS",
        "─".repeat(82)
    );
    let short = format!("{}…", &long[..47]);
    expected.push_str(&format!("{:<5} {:<50} {:<12} {:.1}%\n", 1, short, "Active", 0.0f32));
    expected.push_str(&format!(
        "{:<5} {:<50} {:<12} {:.1}%\n\n",
        22, full, "Failed: everything", 100.0f32
    ));
    let response = Response::JobList { jobs };
    assert!(can_print(&response));
    assert_eq!(print_response(&response, &percents).out, expected);
    let wide = format!("{}…{}", "x".repeat(46), "y".repeat(9));
    assert!(!can_print(&Response::Update { jobs: vec![job(1, &wide, "Active")] }));
    let wide = format!("{}…{}", "x".repeat(44), "y".repeat(9));
    let response = Response::Update { jobs: vec![job(1, &wide, "Active")] };
    assert!(can_print(&response));
    let printed = print_response(&response, &vec!["1.0".to_string()]).out;
    assert!(printed.contains(&format!("{:<50}", format!("{}……", "x".repeat(44)))));
}

#[test]
fn dev_start_gives_up() {
    let mut state = DevStart::Waiting { looks: 0 };
    for _ in 0..DEV_LOOKS {
        assert!(matches!(state, DevStart::Waiting { .. }));
        let (next, sleep) = state.look(false);
        assert!(sleep);
        state = next;
    }
    assert_eq!(state, DevStart::LastLook);
    assert_eq!(state.look(false), (DevStart::Failed, false));
    assert_eq!(state.look(true), (DevStart::Ready, false));
    let (next, sleep) = DevStart::Waiting { looks: 7 }.look(true);
    assert_eq!((next, sleep), (DevStart::LastLook, false));
    assert_eq!(DevStart::Ready.look(false), (DevStart::Ready, false));
    assert_eq!(DevStart::Failed.look(true), (DevStart::Failed, false));
}
