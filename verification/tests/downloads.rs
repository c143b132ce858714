use shard::downloader::chunker::{
    headers_for, range_header, read_probe, referer_of, split_into_chunks, ChunkRange, ServerProbe,
};
use shard::downloader::engine::{
    check_range_status, complete_chunk, stop_text, stream_step, ChunkPlan, DownloadEngine, Route,
    SingleStream, Start, StreamStep,
};
use shard::downloader::error::DownloadError;
use shard::downloader::resume::{part_path, PartState};
use shard::queue::job::JobControl;

fn text(s: &str) -> Option<String> {
    Some(s.to_string())
}

#[test]
fn chunks_cover_full_file() {
    let chunks = split_into_chunks(100, 4);
    assert_eq!(chunks[0].start, 0);
    assert_eq!(chunks[3].end, 99);

    // No gaps
    for w in chunks.windows(2) {
        assert_eq!(w[0].end + 1, w[1].start);
    }
}

#[test]
fn last_chunk_absorbs_remainder() {
    let chunks = split_into_chunks(101, 4);
    assert_eq!(chunks[3].end, 100);
}

#[test]
fn chunks_hold_every_byte_once() {
    for (total, n) in [(1u64, 1u8), (7, 7), (1000, 255), (255, 255), (u64::MAX, 3)] {
        let chunks = split_into_chunks(total, n);
        assert_eq!(chunks.len(), n as usize);
        let mut next = 0u64;
        for (i, c) in chunks.iter().enumerate() {
            assert_eq!(c.index, i);
            assert_eq!(c.start, next);
            assert!(c.len() >= 1);
            next = c.end.wrapping_add(1);
        }
        assert_eq!(next, total);
    }
}

#[test]
fn chunk_len_counts_both_ends() {
    assert_eq!(ChunkRange { index: 0, start: 5, end: 9 }.len(), 5);
    assert_eq!(ChunkRange { index: 0, start: 5, end: 5 }.len(), 1);
}

#[test]
fn range_header_is_inclusive() {
    assert_eq!(range_header(&ChunkRange { index: 1, start: 25, end: 49 }), "bytes=25-49");
}

#[test]
fn success_is_two_hundred_to_two_ninety_nine() {
    for status in 0..=1000u16 {
        let ok = read_probe(status, &None, &None).is_ok();
        assert_eq!(ok, (200..300).contains(&status), "{status}");
        match read_probe(status, &None, &None) {
            Ok(_) => {}
            Err(DownloadError::HttpError { status: s }) => assert_eq!(s, status),
            Err(_) => panic!("another error"),
        }
    }
}

#[test]
fn probe_reads_size_and_ranges() {
    let p = read_probe(200, &text("1234"), &text("bytes")).unwrap();
    assert_eq!(p.total_size, 1234);
    assert!(p.supports_ranges);
    let p = read_probe(200, &text("-5"), &text("none")).unwrap();
    assert_eq!(p.total_size, 0);
    assert!(!p.supports_ranges);
    let p = read_probe(204, &None, &None).unwrap();
    assert_eq!(p.total_size, 0);
    assert!(!p.supports_ranges);
}

#[test]
fn referer_is_the_site() {
    assert_eq!(referer_of("http://host.org/a/b"), text("https://host.org"));
    assert_eq!(referer_of("ftp://host.org"), text("https://host.org"));
    assert_eq!(referer_of("host.org/a"), None);
}

#[test]
fn headers_follow_the_referer() {
    let mine = vec![("Cookie".to_string(), "a=b".to_string())];
    let all = headers_for("https://h/x", &mine);
    assert_eq!(all.len(), 2);
    assert_eq!(all[0], ("Referer".to_string(), "https://h".to_string()));
    assert_eq!(all[1], mine[0]);
    assert_eq!(headers_for("nothing", &mine), mine);
}

#[test]
fn part_file_lives_alongside() {
    assert_eq!(part_path("/tmp/file.zip"), "/tmp/file.zip.part");
    assert_eq!(part_path("file.zip"), "file.zip.part");
}

#[test]
fn pending_lists_what_is_missing() {
    let mut state = PartState::new("u", 100, 4);
    assert_eq!(state.pending_indices(), vec![0, 1, 2, 3]);
    state.mark_done(2);
    state.mark_done(2);
    state.mark_done(9);
    assert_eq!(state.pending_indices(), vec![0, 1, 3]);
    let copy = state.snapshot();
    assert_eq!(copy.pending_indices(), vec![0, 1, 3]);
    assert_eq!(copy.url, "u");
    assert_eq!(copy.total_size, 100);
    assert_eq!(copy.completed_chunks.len(), 2);
}

#[test]
fn same_url_is_resumed() {
    let engine = DownloadEngine::new(4);
    let mut state = PartState::new("u", 101, 4);
    state.mark_done(0);
    state.mark_done(3);
    let state = Some(state);
    assert!(engine.can_begin("u", &state));
    match engine.begin("u", &state) {
        Start::Resume { total_size, done_bytes } => {
            assert_eq!(total_size, 101);
            assert_eq!(done_bytes, 25 + 26);
        }
        Start::Probe => panic!("should resume"),
    }
    assert!(matches!(engine.begin("v", &state), Start::Probe));
    assert!(matches!(engine.begin("u", &None), Start::Probe));
}

#[test]
fn unsplittable_states_are_noticed() {
    let engine = DownloadEngine::new(4);
    let state = Some(PartState::new("u", 3, 4));
    assert!(!engine.can_begin("u", &state));
    assert!(engine.can_begin("v", &state));
    assert!(!engine.can_plan_chunks("u", 3, &None));
    assert!(engine.can_plan_chunks("u", 4, &None));
    assert!(engine.can_plan_chunks("u", 100, &Some(PartState::new("u", 100, 5))));
    let mut done = PartState::new("u", 3, 4);
    for index in 0..4 {
        done.mark_done(index);
    }
    assert!(engine.can_plan_chunks("u", 3, &Some(done)));
    assert!(!DownloadEngine::new(0).can_begin("u", &Some(PartState::new("u", 3, 4))));
}

#[test]
fn route_needs_ranges_and_a_size() {
    let engine = DownloadEngine::new(2);
    for (total_size, supports_ranges) in [(0, true), (5, false), (0, false)] {
        let probe = ServerProbe { total_size, supports_ranges };
        assert!(matches!(engine.route(&probe), Route::Single));
    }
    let probe = ServerProbe { total_size: 5, supports_ranges: true };
    assert!(matches!(engine.route(&probe), Route::Chunked { total_size: 5 }));
}

#[test]
fn plan_fetches_the_missing_chunks() {
    let engine = DownloadEngine::new(4);
    match engine.plan_chunks("u", 101, None) {
        ChunkPlan::Fetch { state, already_bytes, chunks } => {
            assert_eq!(state.pending_indices().len(), 4);
            assert_eq!(already_bytes, 0);
            assert_eq!(chunks.len(), 4);
        }
        ChunkPlan::Complete { .. } => panic!("nothing is on disk"),
    }
    let mut state = PartState::new("u", 101, 4);
    state.mark_done(3);
    state.mark_done(1);
    match engine.plan_chunks("u", 101, Some(state)) {
        ChunkPlan::Fetch { state, already_bytes, chunks } => {
            assert_eq!(already_bytes, 25 + 26);
            let fetched: Vec<usize> = chunks.iter().map(|c| c.index).collect();
            assert_eq!(fetched, vec![0, 2]);
            let missing: u64 = chunks.iter().map(|c| c.len()).sum();
            assert_eq!(missing + already_bytes, 101);
            assert_eq!(state.pending_indices(), vec![0, 2]);
        }
        ChunkPlan::Complete { .. } => panic!("two chunks are missing"),
    }
}

#[test]
fn a_foreign_state_skips_nothing() {
    let engine = DownloadEngine::new(4);
    for (url, size, chunks) in [("other", 101, 4u8), ("u", 100, 4), ("u", 101, 8), ("u", 101, 2)] {
        let mut state = PartState::new(url, size, chunks);
        for index in 0..4 {
            state.mark_done(index);
        }
        let state = Some(state);
        if url == "u" && size == 101 {
            assert!(matches!(
                engine.begin("u", &state),
                Start::Resume { total_size: 101, done_bytes: 0 }
            ));
        }
        assert!(engine.can_plan_chunks("u", 101, &state));
        match engine.plan_chunks("u", 101, state) {
            ChunkPlan::Fetch { state, already_bytes, chunks } => {
                assert_eq!((state.url.as_str(), state.total_size, state.num_chunks), ("u", 101, 4));
                assert!(state.completed_chunks.is_empty());
                assert_eq!(already_bytes, 0);
                assert_eq!(chunks.iter().map(|c| c.len()).sum::<u64>(), 101);
            }
            ChunkPlan::Complete { .. } => panic!("nothing of the file is on disk"),
        }
    }
}

#[test]
fn range_answers() {
    assert!(check_range_status(206).is_ok());
    assert!(check_range_status(200).is_ok());
    assert!(matches!(check_range_status(416), Err(DownloadError::HttpError { status: 416 })));
}

#[test]
fn signals_stop_a_stream() {
    assert_eq!(stream_step(JobControl::Run), StreamStep::Write);
    assert_eq!(stream_step(JobControl::Pause), StreamStep::SaveAndPause);
    assert_eq!(stream_step(JobControl::Cancel), StreamStep::Cancel);
    assert_eq!(stop_text(StreamStep::Write), None);
    assert_eq!(stop_text(StreamStep::SaveAndPause), text("Paused"));
    assert_eq!(stop_text(StreamStep::Cancel), text("Cancelled"));
}

#[test]
fn every_fifth_chunk_saves() {
    let mut state = PartState::new("u", 100, 12);
    let mut completed = 0usize;
    for i in 0..12usize {
        let chunk = ChunkRange { index: i, start: 0, end: 0 };
        let due = complete_chunk(&mut state, &mut completed, &chunk);
        assert_eq!(due, i == 4 || i == 9);
        assert_eq!(completed, i + 1);
    }
    assert!(state.pending_indices().is_empty());
    assert_eq!(state.chunks_done(), 12);
}

#[test]
fn completed_chunks_are_counted() {
    let mut state = PartState::new("u", 100, 4);
    assert_eq!(state.chunks_done(), 0);
    state.mark_done(3);
    state.mark_done(3);
    state.mark_done(7);
    assert_eq!(state.chunks_done(), 1);
}

#[test]
fn chunks_merge_into_the_file() {
    let content: Vec<u8> = (0..=250u8).collect();
    for n in [1u8, 2, 7, 250, 251] {
        let chunks = split_into_chunks(content.len() as u64, n);
        let mut merged: Vec<u8> = vec![];
        let mut file = vec![0u8; content.len()];
        for c in &chunks {
            merged.extend_from_slice(&content[c.start as usize..=c.end as usize]);
        }
        for c in chunks.iter().rev() {
            let range = c.start as usize..=c.end as usize;
            file[range.clone()].copy_from_slice(&content[range]);
        }
        assert_eq!(merged, content);
        assert_eq!(file, content);
    }
}

#[test]
fn single_stream_counts_bytes() {
    let mut s = SingleStream::open(200, &text("10")).unwrap();
    assert_eq!(s.bar_length(), Some(10));
    assert_eq!(s.wrote(4), 4);
    assert_eq!(s.wrote(6), 10);
    assert_eq!(s.finish(), (10, 10));
    let mut s = SingleStream::open(200, &None).unwrap();
    assert_eq!(s.bar_length(), None);
    s.wrote(3);
    assert_eq!(s.finish(), (3, 0));
    assert!(matches!(SingleStream::open(404, &None), Err(DownloadError::HttpError { status: 404 })));
}

#[test]
fn transfer_errors_are_written() {
    assert_eq!(DownloadError::HttpError { status: 404 }.to_text(), "HTTP error: 404");
    assert_eq!(DownloadError::Network("down".to_string()).to_text(), "Network error: down");
    assert_eq!(DownloadError::Io("full".to_string()).to_text(), "IO error: full");
    assert_eq!(DownloadError::InvalidUrl("x".to_string()).to_text(), "Invalid URL: x");
}

#[test]
fn fetching_what_is_missing_completes() {
    let engine = DownloadEngine::new(4);
    let mut state = PartState::new("u", 101, 4);
    state.mark_done(1);
    for index in state.pending_indices() {
        state.mark_done(index);
    }
    assert!(state.pending_indices().is_empty());
    assert!(matches!(
        engine.plan_chunks("u", 101, Some(state)),
        ChunkPlan::Complete { total_size: 101 }
    ));
}
