//! What holds of a download: of its requests, of its chunks, and of what is taken up again.

use vstd::prelude::*;

use crate::downloader::chunker;
use crate::downloader::chunker::ChunkRange;
use crate::downloader::engine;
use crate::downloader::error::DownloadError;
use crate::downloader::resume;
use crate::text;

verus! {

/// Whether `digits` write the number `n`: at least one digit, and nothing but digits.
pub open spec fn writes(digits: Seq<char>, n: int) -> bool {
    digits.len() > 0 && text::all_digits(digits) && text::digits_value(digits) == n
}

/// The `Range` value of a chunk, read by the rule for byte ranges, is the chunk: after `bytes=` it
/// names the first byte, a `-`, and the last byte, and both are written out.
pub proof fn law_range_value_names_the_chunk(part: ChunkRange)
    ensures
        exists|first: Seq<char>, last: Seq<char>|
            chunker::range_value(part) == #[trigger] ("bytes="@ + first + "-"@ + last) && writes(
                first,
                part.start as int,
            ) && writes(last, part.end as int),
{
    let first = text::decimal(part.start as nat);
    let last = text::decimal(part.end as nat);
    text::law_decimal_round_trip(part.start as nat);
    text::law_decimal_round_trip(part.end as nat);
    assert(chunker::range_value(part) == "bytes="@ + first + "-"@ + last);
}

/// No two chunks ask for the same range.
pub proof fn law_range_values_tell_chunks_apart(a: ChunkRange, b: ChunkRange)
    requires
        chunker::range_value(a) == chunker::range_value(b),
    ensures
        a.start == b.start,
        a.end == b.end,
{
    let v = chunker::range_value(a);
    let af = text::decimal(a.start as nat);
    let al = text::decimal(a.end as nat);
    let bf = text::decimal(b.start as nat);
    let bl = text::decimal(b.end as nat);
    text::law_decimal_round_trip(a.start as nat);
    text::law_decimal_round_trip(a.end as nat);
    text::law_decimal_round_trip(b.start as nat);
    text::law_decimal_round_trip(b.end as nat);
    reveal_strlit("bytes=");
    reveal_strlit("-");
    assert("-"@[0] == '-');
    assert(v == "bytes="@ + af + "-"@ + al);
    assert(v == "bytes="@ + bf + "-"@ + bl);
    let i = 6 + af.len();
    let j = 6 + bf.len();
    assert(v[i as int] == '-');
    assert(v[j as int] == '-');
    if i < j {
        assert(v[i as int] == bf[af.len() as int]);
        assert(text::is_digit(bf[af.len() as int]));
    }
    if j < i {
        assert(v[j as int] == af[bf.len() as int]);
        assert(text::is_digit(af[bf.len() as int]));
    }
    assert(af =~= v.subrange(6, i as int));
    assert(bf =~= v.subrange(6, i as int));
    assert(al =~= v.skip(i + 1int));
    assert(bl =~= v.skip(i + 1int));
}

/// The chunks of a file are even: all of them hold the same number of bytes but the last, which
/// holds fewer than one more for each chunk.
pub proof fn law_chunks_are_even(total: u64, n: u8, i: int)
    requires
        1 <= n <= total,
        0 <= i < n,
    ensures
        ({
            let size = chunker::chunks(total as int, n as int)[0].span();
            let here = chunker::chunks(total as int, n as int)[i].span();
            &&& i < n - 1 ==> here == size
            &&& n > 1 ==> size <= here < size + n
            &&& n == 1 ==> here == total
        }),
{
    let size = total as int / n as int;
    chunker::lemma_chunk_bounds(total, n, 0);
    chunker::lemma_chunk_bounds(total, n, i);
    assert(0 * size == 0);
    vstd::arithmetic::div_mod::lemma_fundamental_div_mod(total as int, n as int);
    assert((n - 1) * size + size == n * size) by (nonlinear_arith);
    assert(0 <= (total as int) % (n as int) && (total as int) % (n as int) < n);
}

/// A size that is announced as a number is that number; without one, or with anything else, the
/// size is not known.
pub proof fn law_announced_size_is_read(n: u64, other: Seq<char>, i: int)
    requires
        0 < i < other.len(),
        !text::is_digit(other[i]),
    ensures
        chunker::announced_size(Some(text::decimal(n as nat))) == n,
        chunker::announced_size(None) == 0,
        chunker::announced_size(Some(other)) == 0,
{
    text::law_decimal_round_trip(n as nat);
    text::law_numbers_are_read(other, u64::MAX as nat);
}

/// The referer is the host of the URL, whatever follows it, as an `https` address; a URL without a
/// scheme has none.
pub proof fn law_referer_is_the_host(scheme: Seq<char>, host: Seq<char>, rest: Seq<char>)
    requires
        forall|i: int| 0 <= i < scheme.len() ==> #[trigger] scheme[i] != ':',
        forall|i: int| 0 <= i < host.len() ==> #[trigger] host[i] != '/',
    ensures
        chunker::referer(scheme + ("://"@ + (host + (seq!['/'] + rest)))) == Some(
            "https://"@ + host,
        ),
        chunker::referer(scheme + ("://"@ + host)) == Some("https://"@ + host),
        !text::has_text(rest, "://"@) ==> chunker::referer(rest) is None,
{
    reveal_strlit("://");
    assert("://"@[0] == ':');
    let tail = host + (seq!['/'] + rest);
    let url = scheme + ("://"@ + tail);
    text::law_first_find(scheme, "://"@, tail);
    assert(url.skip(scheme.len() + 3int) =~= tail);
    text::law_first_find(host, seq!['/'], rest);
    assert(tail.take(host.len() as int) =~= host);
    let short = scheme + ("://"@ + host);
    text::law_first_find(scheme, "://"@, host);
    assert(short.skip(scheme.len() + 3int) =~= host);
    text::lemma_find_from(host, seq!['/'], 0);
    if text::find(host, seq!['/']) is Some {
        let at = text::find(host, seq!['/'])->0;
        assert(host.subrange(at, at + 1)[0] == '/');
        assert(host[at] == '/');
    }
    text::law_no_find(rest, "://"@);
}

/// The headers of the user are sent as they are, in their order and behind everything else; what
/// comes before them is at most the referer.
pub proof fn law_user_headers_are_sent(url: Seq<char>, headers: Seq<(Seq<char>, Seq<char>)>)
    ensures
        ({
            let sent = chunker::request_headers(url, headers);
            let extra = sent.len() - headers.len();
            &&& 0 <= extra <= 1
            &&& sent.skip(extra) == headers
            &&& extra == 1 <==> text::has_text(url, "://"@)
            &&& extra == 1 ==> sent[0].0 == "Referer"@ && chunker::referer(url) == Some(sent[0].1)
        }),
{
    text::law_no_find(url, "://"@);
    let sent = chunker::request_headers(url, headers);
    assert(sent.skip(sent.len() - headers.len()) =~= headers);
}

/// A chunk more counts with all of its bytes exactly where it is kept.
pub proof fn law_bytes_are_those_of_the_kept_chunks(
    parts: Seq<ChunkRange>,
    part: ChunkRange,
    keep: Set<usize>,
)
    ensures
        chunker::bytes_in(parts.push(part), keep) == chunker::bytes_in(parts, keep) + if keep.contains(
            part.index,
        ) {
            part.end - part.start + 1
        } else {
            0
        },
        chunker::bytes_in(Seq::empty(), keep) == 0,
{
    assert(parts.push(part).drop_last() =~= parts);
}

/// A state that speaks of the same URL, size and number of chunks is taken up, whatever it holds
/// as completed: what it holds is not fetched again, everything else is, and the bytes that count
/// as being on disk are those of its own completed chunks.
pub proof fn law_fitting_state_is_taken_up(on_disk: resume::PartView, total: u64, connections: u8)
    requires
        1 <= connections <= total,
        on_disk.total_size == total,
        on_disk.num_chunks == connections,
    ensures
        ({
            let part = engine::chosen(Some(on_disk), on_disk.url, total, connections);
            let all = chunker::chunks(total as int, connections as int);
            let fetched = engine::selected(all, part.pending());
            &&& forall|i: int|
                0 <= i < connections ==> (fetched.contains(#[trigger] all[i])
                    <==> !on_disk.completed_chunks.contains(i as usize))
            &&& chunker::bytes_in(all, engine::outside(part.pending())) == chunker::bytes_in(
                all,
                on_disk.completed_chunks,
            )
            &&& chunker::bytes_in(all, part.completed_chunks) == chunker::bytes_in(
                all,
                on_disk.completed_chunks,
            )
            &&& part.pending().len() == 0 <==> forall|i: int|
                0 <= i < connections ==> on_disk.completed_chunks.contains(#[trigger] (i as usize))
            &&& part.url == on_disk.url && part.total_size == total && part.num_chunks
                == connections
            &&& part.completed_chunks == on_disk.completed_chunks
        }),
{
    let part = engine::chosen(Some(on_disk), on_disk.url, total, connections);
    let all = chunker::chunks(total as int, connections as int);
    engine::law_resume_completes_the_file(Some(on_disk), on_disk.url, total, connections);
    resume::law_pending_lists_what_is_missing(part);
    assert forall|i: int| 0 <= i < connections implies (engine::selected(
        all,
        part.pending(),
    ).contains(#[trigger] all[i]) <==> !on_disk.completed_chunks.contains(i as usize)) by {
        assert(part.completed_chunks.contains(i as usize) != engine::selected(
            all,
            part.pending(),
        ).contains(all[i]));
    }
    if part.pending().len() > 0 {
        let k = part.pending()[0];
        assert(part.pending().contains(k));
        assert(part.is_pending(k as int));
        assert(!on_disk.completed_chunks.contains(k as int as usize));
    } else {
        assert forall|i: int| 0 <= i < connections implies on_disk.completed_chunks.contains(
            #[trigger] (i as usize),
        ) by {
            if !on_disk.completed_chunks.contains(i as usize) {
                assert(part.is_pending(i));
                assert(part.pending().contains(i as usize));
            }
        }
    }
}

/// Without a state on disk every chunk is fetched.
pub proof fn law_without_a_state_everything_is_fetched(url: Seq<char>, total: u64, connections: u8)
    requires
        1 <= connections <= total,
    ensures
        ({
            let part = engine::chosen(None, url, total, connections);
            let all = chunker::chunks(total as int, connections as int);
            &&& forall|i: int|
                0 <= i < connections ==> engine::selected(all, part.pending()).contains(
                    #[trigger] all[i],
                )
            &&& chunker::bytes_in(all, engine::outside(part.pending())) == 0
            &&& part.url == url && part.total_size == total && part.num_chunks == connections
        }),
{
    let part = engine::chosen(None, url, total, connections);
    let all = chunker::chunks(total as int, connections as int);
    engine::law_resume_completes_the_file(None, url, total, connections);
    chunker::lemma_no_bytes(all);
    assert forall|i: int| 0 <= i < connections implies engine::selected(
        all,
        part.pending(),
    ).contains(#[trigger] all[i]) by {
        assert(!part.completed_chunks.contains(i as usize));
    }
}

/// Chunks are fetched in their order: one more is fetched last, where it is listed, or not at all.
pub proof fn law_chunks_are_fetched_in_order(
    parts: Seq<ChunkRange>,
    part: ChunkRange,
    listed: Seq<usize>,
)
    ensures
        engine::selected(parts.push(part), listed) == if listed.contains(part.index) {
            engine::selected(parts, listed).push(part)
        } else {
            engine::selected(parts, listed)
        },
        engine::selected(Seq::empty(), listed) == Seq::<ChunkRange>::empty(),
{
    reveal(Seq::filter);
    assert(parts.push(part).drop_last() =~= parts);
}

/// Of a fresh download everything is missing, each chunk once and in ascending order.
pub proof fn law_fresh_downloads_miss_everything(url: Seq<char>, total: u64, n: u8)
    ensures
        resume::fresh(url, total, n).pending() == Seq::new(n as nat, |i: int| i as usize),
{
    lemma_fresh_pending(url, total, n, n as nat);
}

proof fn lemma_fresh_pending(url: Seq<char>, total: u64, n: u8, k: nat)
    requires
        k <= n,
    ensures
        resume::fresh(url, total, n).pending_below(k) == Seq::new(k, |i: int| i as usize),
    decreases k,
{
    if k > 0 {
        lemma_fresh_pending(url, total, n, (k - 1) as nat);
    }
    assert(resume::fresh(url, total, n).pending_below(k) =~= Seq::new(k, |i: int| i as usize));
}

/// The missing chunks are listed in ascending order.
pub proof fn law_pending_ascends(part: resume::PartView, i: int, j: int)
    requires
        0 <= i < j < part.pending().len(),
    ensures
        part.pending()[i] < part.pending()[j],
{
    resume::lemma_pending_below(part, part.num_chunks as nat);
}

/// The state is written to disk at regular distances: exactly once in as many completed chunks.
pub proof fn law_saves_are_regular(n: int, k: int)
    requires
        engine::save_due(n),
        0 < k <= engine::SAVE_EVERY_N_CHUNKS,
    ensures
        engine::save_due(n + k) <==> k == engine::SAVE_EVERY_N_CHUNKS,
        engine::save_due(0),
{
    assert(engine::SAVE_EVERY_N_CHUNKS == 5);
}

/// An error keeps what the layer below said of it, and a refused request its status.
pub proof fn law_transfer_errors_say_why(status: u16, why: String)
    ensures
        (DownloadError::HttpError { status }).message() == "HTTP error: "@ + text::decimal(
            status as nat,
        ),
        (DownloadError::Network(why)).message() == "Network error: "@ + why@,
        (DownloadError::Io(why)).message() == "IO error: "@ + why@,
        (DownloadError::InvalidUrl(why)).message() == "Invalid URL: "@ + why@,
{
}

/// An answer carries what was asked for exactly where its status is one of success, of which the one
/// for partial content is one.
pub proof fn law_success_is_a_two_hundred(status: u16)
    ensures
        chunker::success(status) <==> status / 100 == 2,
        engine::range_accepted(status) <==> chunker::success(status),
        engine::range_accepted(206),
{
}

/// A file is split over no more connections than it has bytes; where nothing is missing, it need not
/// be split.
pub proof fn law_files_are_split_no_further_than_into_bytes(total_size: u64, connections: u8, pending: nat)
    ensures
        engine::splittable(total_size, connections, pending) <==> (pending > 0 ==> total_size
            >= connections),
{
}

/// A size that is too large for a download is not known either.
pub proof fn law_oversized_announcements_are_unknown(n: nat)
    requires
        n > u64::MAX,
    ensures
        chunker::announced_size(Some(text::decimal(n))) == 0,
{
    text::law_decimal_round_trip(n);
}

/// The resume state is due for the disk after every fifth chunk, and after no other.
pub proof fn law_every_fifth_chunk_is_saved(m: int, rest: int)
    requires
        0 <= rest < 5,
    ensures
        engine::save_due(5 * m + rest) <==> rest == 0,
{
    assert(engine::SAVE_EVERY_N_CHUNKS == 5);
}

} // verus!
