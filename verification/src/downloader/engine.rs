//! What a download does next: resume, probe, stream the whole file, or fetch its chunks.
//!
//! Requests and file writes are made by the caller, which hands in what came back.

use std::collections::HashSet;

use vstd::prelude::*;
use vstd::string::*;

use crate::downloader::chunker;
use crate::downloader::chunker::{ChunkRange, ServerProbe};
use crate::downloader::error::DownloadError;
use crate::downloader::resume;
use crate::downloader::resume::PartState;
use crate::queue::job::JobControl;
use crate::text;

verus! {

broadcast use vstd::std_specs::hash::group_hash_axioms;

/// The resume state is written to disk each time this many chunks have been completed.
pub const SAVE_EVERY_N_CHUNKS: usize = 5;

/// Downloads one file over a number of connections.
#[derive(Debug)]
pub struct DownloadEngine {
    pub connections: u8,
}

/// How a download begins.
#[derive(Debug)]
pub enum Start {
    /// The resume state on disk belongs to this URL: go on with the chunks, without a probe.
    Resume { total_size: u64, done_bytes: u64 },
    /// Ask the server for the size of the file and for ranges.
    Probe,
}

/// How a probed file is fetched.
#[derive(Debug)]
pub enum Route {
    /// In one stream: the server serves no ranges or does not tell the size.
    Single,
    /// In chunks, side by side.
    Chunked { total_size: u64 },
}

/// What is left to fetch of a file in chunks.
#[derive(Debug)]
pub enum ChunkPlan {
    /// Every chunk is on disk.
    Complete { total_size: u64 },
    /// These chunks are missing; `already_bytes` are on disk.
    Fetch { state: PartState, already_bytes: u64, chunks: Vec<ChunkRange> },
}

/// The resume state that the optional `state` stands for.
pub open spec fn part_view(state: Option<PartState>) -> Option<resume::PartView> {
    match state {
        Some(s) => Some(s@),
        None => None,
    }
}

/// The resume state that a chunked download goes by: the one on disk, where it speaks of this file
/// in as many chunks, or else a fresh one.
pub open spec fn chosen(
    state: Option<resume::PartView>,
    url: Seq<char>,
    total_size: u64,
    connections: u8,
) -> resume::PartView {
    match state {
        Some(s) if s.url == url && s.total_size == total_size && s.num_chunks == connections => s,
        _ => resume::fresh(url, total_size, connections),
    }
}

/// The indices that are not in `listed`.
pub open spec fn outside(listed: Seq<usize>) -> Set<usize> {
    Set::new(|i: usize| !listed.contains(i))
}

/// Those of `parts` whose index is in `listed`, in order.
pub open spec fn selected(parts: Seq<ChunkRange>, listed: Seq<usize>) -> Seq<ChunkRange> {
    parts.filter(|c: ChunkRange| listed.contains(c.index))
}

/// Whether a file of `total_size` bytes can be split over the connections, where `pending` chunks
/// are missing; where none is, it need not be.
pub open spec fn splittable(total_size: u64, connections: u8, pending: nat) -> bool {
    pending == 0 || connections <= total_size
}

fn lists(listed: &Vec<usize>, index: usize) -> (r: bool)
    ensures
        r == listed@.contains(index),
{
    let mut i: usize = 0;
    while i < listed.len()
        invariant
            i <= listed@.len(),
            forall|j: int| 0 <= j < i ==> listed@[j] != index,
        decreases listed@.len() - i,
    {
        if listed[i] == index {
            return true;
        }
        i += 1;
    }
    false
}

/// How many bytes the chunks whose index is in `completed` hold, of a file of `total_size` bytes
/// in `n` chunks.
fn completed_bytes(total_size: u64, n: u8, completed: &HashSet<usize>) -> (r: u64)
    requires
        1 <= n <= total_size,
    ensures
        r == chunker::bytes_in(chunker::chunks(total_size as int, n as int), completed@),
{
    let parts = chunker::split_into_chunks(total_size, n);
    let ghost all = chunker::chunks(total_size as int, n as int);
    let mut sum: u64 = 0;
    let mut i: usize = 0;
    while i < parts.len()
        invariant
            1 <= n <= total_size,
            all == chunker::chunks(total_size as int, n as int),
            parts@ == all,
            i <= parts@.len() == n,
            sum == chunker::bytes_in(all.take(i as int), completed@),
        decreases parts@.len() - i,
    {
        let c: ChunkRange = parts[i];
        proof {
            chunker::lemma_chunk_bounds(total_size, n, i as int);
            chunker::lemma_bytes_in_prefix(total_size, n, completed@, i + 1);
            assert(all.take(i + 1).drop_last() =~= all.take(i as int));
            assert(all.take(i + 1).last() == c);
            assert((i + 1) * (total_size as int / n as int) <= total_size);
        }
        if completed.contains(&c.index) {
            sum += c.len();
        }
        i += 1;
    }
    assert(all.take(n as int) =~= all);
    sum
}

impl DownloadEngine {
    /// An engine that uses `connections` connections.
    pub fn new(connections: u8) -> (r: DownloadEngine)
        ensures
            r.connections == connections,
    {
        DownloadEngine { connections }
    }

    /// Whether `begin` can split the file that `state` speaks of.
    pub fn can_begin(&self, url: &str, state: &Option<PartState>) -> (r: bool)
        ensures
            r == (match part_view(*state) {
                Some(s) => s.url == url@ ==> 1 <= self.connections <= s.total_size,
                None => true,
            }),
    {
        match state {
            Some(s) => !text::same_text(s.url.as_str(), url) || (1 <= self.connections
                && self.connections as u64 <= s.total_size),
            None => true,
        }
    }

    /// How the download of `url` begins, given the resume state on disk.
    ///
    /// A state of the same URL is resumed, without a probe; the completed chunks that the download
    /// goes by count as downloaded.
    pub fn begin(&self, url: &str, state: &Option<PartState>) -> (r: Start)
        requires
            match part_view(*state) {
                Some(s) => s.url == url@ ==> 1 <= self.connections <= s.total_size,
                None => true,
            },
        ensures
            match r {
                Start::Resume { total_size, done_bytes } => part_view(*state) matches Some(s)
                    && s.url == url@ && total_size == s.total_size && done_bytes
                    == chunker::bytes_in(
                    chunker::chunks(s.total_size as int, self.connections as int),
                    chosen(Some(s), url@, s.total_size, self.connections).completed_chunks,
                ),
                Start::Probe => part_view(*state) matches Some(s) ==> s.url != url@,
            },
    {
        match state {
            Some(s) => {
                if text::same_text(s.url.as_str(), url) {
                    let done_bytes: u64 = if s.num_chunks == self.connections {
                        completed_bytes(s.total_size, self.connections, &s.completed_chunks)
                    } else {
                        proof {
                            chunker::lemma_no_bytes(
                                chunker::chunks(s.total_size as int, self.connections as int),
                            );
                        }
                        0
                    };
                    Start::Resume { total_size: s.total_size, done_bytes }
                } else {
                    Start::Probe
                }
            },
            None => Start::Probe,
        }
    }

    /// How a probed file is fetched.
    pub fn route(&self, probe: &ServerProbe) -> (r: Route)
        ensures
            match r {
                Route::Single => !probe.supports_ranges || probe.total_size == 0,
                Route::Chunked { total_size } => probe.supports_ranges && probe.total_size != 0
                    && total_size == probe.total_size,
            },
    {
        if !probe.supports_ranges || probe.total_size == 0 {
            Route::Single
        } else {
            Route::Chunked { total_size: probe.total_size }
        }
    }

    /// The resume state that a chunked download of `url` goes by.
    fn choose_state(&self, url: &str, total_size: u64, state: Option<PartState>) -> (r: PartState)
        ensures
            r@ == chosen(part_view(state), url@, total_size, self.connections),
    {
        match state {
            Some(s) => {
                if text::same_text(s.url.as_str(), url) && s.total_size == total_size
                    && s.num_chunks == self.connections {
                    s
                } else {
                    PartState::new(url, total_size, self.connections)
                }
            },
            None => PartState::new(url, total_size, self.connections),
        }
    }

    /// Whether `plan_chunks` can split a file of `total_size` bytes for the state on disk.
    pub fn can_plan_chunks(&self, url: &str, total_size: u64, state: &Option<PartState>) -> (r: bool)
        ensures
            r == splittable(
                total_size,
                self.connections,
                chosen(part_view(*state), url@, total_size, self.connections).pending().len(),
            ),
    {
        let copy: Option<PartState> = match state {
            Some(s) => Some(s.snapshot()),
            None => None,
        };
        let pending = self.choose_state(url, total_size, copy).pending_indices();
        pending.len() == 0 || self.connections as u64 <= total_size
    }

    /// What is left to fetch of a file of `total_size` bytes, given the resume state on disk.
    pub fn plan_chunks(&self, url: &str, total_size: u64, state: Option<PartState>) -> (r: ChunkPlan)
        requires
            splittable(
                total_size,
                self.connections,
                chosen(part_view(state), url@, total_size, self.connections).pending().len(),
            ),
        ensures
            ({
                let part = chosen(part_view(state), url@, total_size, self.connections);
                let all = chunker::chunks(total_size as int, self.connections as int);
                match r {
                    ChunkPlan::Complete { total_size: size } => part.pending().len() == 0 && size
                        == total_size,
                    ChunkPlan::Fetch { state: kept, already_bytes, chunks } => {
                        &&& part.pending().len() > 0
                        &&& kept@ == part
                        &&& already_bytes == chunker::bytes_in(all, outside(part.pending()))
                        &&& chunks@ == selected(all, part.pending())
                    },
                }
            }),
    {
        let state: PartState = self.choose_state(url, total_size, state);
        let pending = state.pending_indices();
        if pending.len() == 0 {
            return ChunkPlan::Complete { total_size };
        }
        proof {
            resume::law_pending_lists_what_is_missing(state@);
        }
        let n: u8 = self.connections;
        let parts = chunker::split_into_chunks(total_size, n);
        let ghost all = chunker::chunks(total_size as int, n as int);
        let mut already_bytes: u64 = 0;
        let mut chunks: Vec<ChunkRange> = Vec::new();
        let mut i: usize = 0;
        proof {
            reveal(Seq::filter);
            assert(all.take(0) =~= Seq::<ChunkRange>::empty());
        }
        while i < parts.len()
            invariant
                1 <= n <= total_size,
                all == chunker::chunks(total_size as int, n as int),
                parts@ == all,
                i <= parts@.len() == n,
                already_bytes == chunker::bytes_in(all.take(i as int), outside(pending@)),
                chunks@ == selected(all.take(i as int), pending@),
            decreases parts@.len() - i,
        {
            let c: ChunkRange = parts[i];
            proof {
                reveal(Seq::filter);
                chunker::lemma_chunk_bounds(total_size, n, i as int);
                chunker::lemma_bytes_in_prefix(total_size, n, outside(pending@), i + 1);
                assert(all.take(i + 1).drop_last() =~= all.take(i as int));
                assert(all.take(i + 1).last() == c);
            }
            if lists(&pending, c.index) {
                chunks.push(c);
            } else {
                already_bytes += c.len();
            }
            i += 1;
        }
        assert(all.take(n as int) =~= all);
        ChunkPlan::Fetch { state, already_bytes, chunks }
    }
}

/// Whether an answer to a range request carries the range.
pub open spec fn range_accepted(status: u16) -> bool {
    chunker::success(status) || status == 206
}

/// Reads the status of an answer to a range request.
pub fn check_range_status(status: u16) -> (r: Result<(), DownloadError>)
    ensures
        match r {
            Ok(_) => range_accepted(status),
            Err(e) => !range_accepted(status) && e == (DownloadError::HttpError { status }),
        },
{
    if !chunker::status_is_success(status) && status != 206 {
        return Err(DownloadError::HttpError { status });
    }
    Ok(())
}

/// What a chunk does with the next piece of its stream.
#[derive(Debug, Clone, Copy, PartialEq, Eq, Structural)]
pub enum StreamStep {
    /// Give up with the message `Cancelled`.
    Cancel,
    /// Write the resume state to disk and give up with the message `Paused`.
    SaveAndPause,
    /// Write the piece to disk.
    Write,
}

/// What a chunk does with the next piece of its stream, given the last control signal.
pub fn stream_step(control: JobControl) -> (r: StreamStep)
    ensures
        r == (match control {
            JobControl::Cancel => StreamStep::Cancel,
            JobControl::Pause => StreamStep::SaveAndPause,
            JobControl::Run => StreamStep::Write,
        }),
{
    match control {
        JobControl::Cancel => StreamStep::Cancel,
        JobControl::Pause => StreamStep::SaveAndPause,
        JobControl::Run => StreamStep::Write,
    }
}

/// The message with which a transfer ends that was told to stop.
pub open spec fn stop_message(step: StreamStep) -> Option<Seq<char>> {
    match step {
        StreamStep::Cancel => Some("Cancelled"@),
        StreamStep::SaveAndPause => Some("Paused"@),
        StreamStep::Write => None,
    }
}

/// The message with which a transfer ends that was told to stop.
pub fn stop_text(step: StreamStep) -> (r: Option<String>)
    ensures
        text::text_opt(r) == stop_message(step),
{
    match step {
        StreamStep::Cancel => Some("Cancelled".to_owned()),
        StreamStep::SaveAndPause => Some("Paused".to_owned()),
        StreamStep::Write => None,
    }
}

/// Whether the resume state is written to disk when `n` chunks have been completed.
pub open spec fn save_due(n: int) -> bool {
    n % (SAVE_EVERY_N_CHUNKS as int) == 0
}

/// Records that a chunk has been fetched. Tells whether the resume state is due for the disk.
pub fn complete_chunk(state: &mut PartState, completed: &mut usize, chunk: &ChunkRange) -> (due: bool)
    requires
        *old(completed) < usize::MAX,
    ensures
        final(state)@ == (resume::PartView {
            completed_chunks: old(state)@.completed_chunks.insert(chunk.index),
            ..old(state)@
        }),
        *final(completed) == *old(completed) + 1,
        due == save_due(*old(completed) + 1),
{
    state.mark_done(chunk.index);
    *completed = *completed + 1;
    *completed % SAVE_EVERY_N_CHUNKS == 0
}

/// A download in one stream.
#[derive(Debug)]
pub struct SingleStream {
    /// The announced size; 0 where it is not known.
    pub total_size: u64,
    pub bytes_written: u64,
}

impl SingleStream {
    /// Reads the head of the answer to the request for the file.
    pub fn open(status: u16, content_length: &Option<String>) -> (r: Result<
        SingleStream,
        DownloadError,
    >)
        ensures
            match r {
                Ok(s) => chunker::success(status) && s.bytes_written == 0 && s.total_size
                    == chunker::announced_size(text::text_opt(*content_length)),
                Err(e) => !chunker::success(status) && e == (DownloadError::HttpError { status }),
            },
    {
        if !chunker::status_is_success(status) {
            return Err(DownloadError::HttpError { status });
        }
        Ok(SingleStream { total_size: chunker::content_size(content_length), bytes_written: 0 })
    }

    /// The length of the progress bar, where the size is known.
    pub fn bar_length(&self) -> (r: Option<u64>)
        ensures
            r == (if self.total_size > 0 {
                Some(self.total_size)
            } else {
                None
            }),
    {
        if self.total_size > 0 {
            Some(self.total_size)
        } else {
            None
        }
    }

    /// Records that `bytes` more were written. Gives all bytes written so far.
    pub fn wrote(&mut self, bytes: u64) -> (r: u64)
        requires
            old(self).bytes_written + bytes <= u64::MAX,
        ensures
            *final(self) == (SingleStream {
                bytes_written: (old(self).bytes_written + bytes) as u64,
                ..*old(self)
            }),
            r == old(self).bytes_written + bytes,
    {
        self.bytes_written = self.bytes_written + bytes;
        self.bytes_written
    }

    /// The bytes written and the announced size of the file, which is 0 where it is not known.
    pub fn finish(&self) -> (r: (u64, u64))
        ensures
            r.0 == self.bytes_written,
            r.1 == self.total_size,
    {
        (self.bytes_written, self.total_size)
    }
}

proof fn lemma_selected(parts: Seq<ChunkRange>, listed: Seq<usize>)
    ensures
        forall|c: ChunkRange|
            #[trigger] selected(parts, listed).contains(c) <==> parts.contains(c)
                && listed.contains(c.index),
    decreases parts.len(),
{
    reveal(Seq::filter);
    if parts.len() > 0 {
        lemma_selected(parts.drop_last(), listed);
        let before = selected(parts.drop_last(), listed);
        let after = selected(parts, listed);
        assert(parts =~= parts.drop_last().push(parts.last()));
        assert forall|c: ChunkRange| #[trigger]
            after.contains(c) <==> parts.contains(c) && listed.contains(c.index) by {
            if parts.drop_last().contains(c) {
                let j = choose|j: int| 0 <= j < parts.drop_last().len() && parts.drop_last()[j] == c;
                assert(parts[j] == c);
            }
            if before.contains(c) {
                let j = choose|j: int| 0 <= j < before.len() && before[j] == c;
                assert(after[j] == c);
            }
            if parts.contains(c) && listed.contains(c.index) && !before.contains(c) {
                let j = choose|j: int| 0 <= j < parts.len() && parts[j] == c;
                if j < parts.len() - 1 {
                    assert(parts.drop_last()[j] == c);
                }
                assert(c == parts.last());
                assert(after[after.len() - 1] == c);
            }
            if after.contains(c) {
                let j = choose|j: int| 0 <= j < after.len() && after[j] == c;
                if j < before.len() {
                    assert(before[j] == c);
                } else {
                    assert(parts[parts.len() - 1] == c);
                }
            }
        }
    }
}

/// An interruption loses fewer chunks than are completed between two writes of the resume state.
pub proof fn law_few_chunks_are_unsaved(n: nat)
    ensures
        exists|saved: int|
            n - SAVE_EVERY_N_CHUNKS < saved <= n && 0 <= saved && #[trigger] save_due(saved),
{
    let saved = n - n % (SAVE_EVERY_N_CHUNKS as nat);
    assert(save_due(saved)) by {
        assert(SAVE_EVERY_N_CHUNKS == 5);
    }
}

/// Resuming misses nothing and repeats nothing, whatever state is on disk: a chunk is fetched
/// exactly when the state that the download goes by does not hold it as completed, and the bytes on
/// disk and the bytes still to be fetched add up to the file.
pub proof fn law_resume_completes_the_file(
    state: Option<resume::PartView>,
    url: Seq<char>,
    total: u64,
    connections: u8,
)
    requires
        1 <= connections <= total,
    ensures
        ({
            let part = chosen(state, url, total, connections);
            let all = chunker::chunks(total as int, connections as int);
            let pending = part.pending();
            &&& forall|i: int|
                0 <= i < connections ==> (#[trigger] part.completed_chunks.contains(i as usize)
                    != selected(all, pending).contains(all[i]))
            &&& chunker::bytes_in(all, outside(pending)) + chunker::bytes_in(all, pending.to_set())
                == total
            &&& chunker::bytes_in(all, outside(pending)) == chunker::bytes_in(
                all,
                part.completed_chunks,
            )
        }),
{
    let part = chosen(state, url, total, connections);
    let all = chunker::chunks(total as int, connections as int);
    let pending = part.pending();
    resume::law_pending_lists_what_is_missing(part);
    lemma_selected(all, pending);
    assert forall|i: int| 0 <= i < connections implies (#[trigger] part.completed_chunks.contains(
        i as usize,
    ) != selected(all, pending).contains(all[i])) by {
        chunker::lemma_chunk_bounds(total, connections, i);
        assert(all[i].index == i as usize);
        assert(all.contains(all[i]));
        assert(pending.contains(i as usize) <==> part.is_pending(i));
    }
    assert forall|i: int| 0 <= i < all.len() implies outside(pending).contains(
        (#[trigger] all[i]).index,
    ) != pending.to_set().contains(all[i].index) by {}
    chunker::lemma_bytes_split(all, outside(pending), pending.to_set());
    chunker::lemma_bytes_in_prefix(
        total,
        connections,
        outside(pending).union(pending.to_set()),
        connections as int,
    );
    assert(all.take(connections as int) =~= all);
    lemma_same_bytes(total, connections, outside(pending), part.completed_chunks, all.len() as int);
}

/// A state of another file, or of another number of chunks, skips nothing: every chunk is fetched,
/// and no byte counts as being on disk.
pub proof fn law_foreign_state_skips_nothing(
    state: resume::PartView,
    url: Seq<char>,
    total: u64,
    connections: u8,
)
    requires
        1 <= connections <= total,
        state.url != url || state.total_size != total || state.num_chunks != connections,
    ensures
        ({
            let part = chosen(Some(state), url, total, connections);
            let all = chunker::chunks(total as int, connections as int);
            &&& selected(all, part.pending()) == all
            &&& chunker::bytes_in(all, outside(part.pending())) == 0
        }),
{
    let part = chosen(Some(state), url, total, connections);
    let all = chunker::chunks(total as int, connections as int);
    resume::law_pending_lists_what_is_missing(part);
    law_resume_completes_the_file(Some(state), url, total, connections);
    chunker::lemma_no_bytes(all);
    assert forall|i: int| 0 <= i < all.len() implies part.pending().contains(
        (#[trigger] all[i]).index,
    ) by {
        chunker::lemma_chunk_bounds(total, connections, i);
        assert(part.is_pending(all[i].index as int));
    }
    lemma_all_selected(all, part.pending());
}

proof fn lemma_all_selected(parts: Seq<ChunkRange>, listed: Seq<usize>)
    requires
        forall|i: int| 0 <= i < parts.len() ==> listed.contains((#[trigger] parts[i]).index),
    ensures
        selected(parts, listed) == parts,
    decreases parts.len(),
{
    reveal(Seq::filter);
    if parts.len() > 0 {
        assert forall|i: int| 0 <= i < parts.drop_last().len() implies listed.contains(
            (#[trigger] parts.drop_last()[i]).index,
        ) by {
            assert(parts[i] == parts.drop_last()[i]);
        }
        lemma_all_selected(parts.drop_last(), listed);
        assert(parts.last() == parts[parts.len() - 1]);
        assert(selected(parts, listed) =~= parts);
    } else {
        assert(selected(parts, listed) =~= parts);
    }
}

proof fn lemma_same_bytes(total: u64, n: u8, a: Set<usize>, b: Set<usize>, k: int)
    requires
        1 <= n <= total,
        0 <= k <= n,
        forall|i: usize| i < n ==> (#[trigger] a.contains(i) == b.contains(i)),
    ensures
        chunker::bytes_in(chunker::chunks(total as int, n as int).take(k), a) == chunker::bytes_in(
            chunker::chunks(total as int, n as int).take(k),
            b,
        ),
    decreases k,
{
    let all = chunker::chunks(total as int, n as int);
    if k > 0 {
        lemma_same_bytes(total, n, a, b, k - 1);
        chunker::lemma_chunk_bounds(total, n, k - 1);
        assert(all.take(k).drop_last() =~= all.take(k - 1));
        assert(all.take(k).last() == chunker::chunk(total as int, n as int, k - 1));
    }
}

} // verus!
