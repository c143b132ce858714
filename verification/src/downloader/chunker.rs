//! Probing a server and splitting a file into byte ranges.

use vstd::prelude::*;
use vstd::string::*;
use vstd::arithmetic::div_mod::lemma_fundamental_div_mod;
use vstd::arithmetic::mul::{lemma_mul_inequality, lemma_mul_is_distributive_add};

use crate::downloader::error::DownloadError;
use crate::text;

verus! {

/// A single byte range: [start, end] inclusive.
#[derive(Debug, Clone, Copy)]
pub struct ChunkRange {
    pub index: usize,
    pub start: u64,
    pub end: u64,
}

impl ChunkRange {
    /// How many bytes the range holds.
    pub open spec fn span(self) -> int {
        self.end - self.start + 1
    }

    /// Whether the range holds the byte at `offset`.
    pub open spec fn covers(self, offset: int) -> bool {
        self.start <= offset <= self.end
    }

    /// How many bytes the range holds.
    pub fn len(&self) -> (n: u64)
        requires
            self.start <= self.end,
            self.span() <= u64::MAX,
        ensures
            n == self.span(),
    {
        self.end - self.start + 1
    }
}

/// Result of probing a URL before downloading.
#[derive(Debug)]
pub struct ServerProbe {
    pub total_size: u64,
    pub supports_ranges: bool,
}

/// The size that a `Content-Length` header announces; 0 where it is missing or no number.
pub open spec fn announced_size(content_length: Option<Seq<char>>) -> nat {
    match content_length {
        Some(v) => match text::parse_up_to(v, u64::MAX as nat) {
            Some(n) => n,
            None => 0,
        },
        None => 0,
    }
}

/// Whether the status code `status` reports success.
pub open spec fn success(status: u16) -> bool {
    200 <= status < 300
}

/// `reqwest::StatusCode::is_success`, for a status code given as a number: true within 200-299.
/// `StatusCode::from_u16` refuses numbers that are no status code, which are no success either.
#[verifier::external_body]
pub(crate) fn status_is_success(status: u16) -> (r: bool)
    ensures
        r == success(status),
{
    match reqwest::StatusCode::from_u16(status) {
        Ok(code) => code.is_success(),
        Err(_) => false,
    }
}

/// The size that a `Content-Length` header announces; 0 where it is missing or no number.
pub fn content_size(content_length: &Option<String>) -> (n: u64)
    ensures
        n == announced_size(text::text_opt(*content_length)),
{
    match content_length {
        Some(v) => match text::parse_text(v.as_str(), u64::MAX) {
            Some(n) => n,
            None => 0,
        },
        None => 0,
    }
}

/// Reads the answer to a HEAD request: the file size and whether ranges are served.
///
/// A server serves ranges when it sends an `Accept-Ranges` header other than `none`.
pub fn read_probe(
    status: u16,
    content_length: &Option<String>,
    accept_ranges: &Option<String>,
) -> (r: Result<ServerProbe, DownloadError>)
    ensures
        match r {
            Ok(probe) => {
                &&& success(status)
                &&& probe.total_size == announced_size(text::text_opt(*content_length))
                &&& probe.supports_ranges == (match text::text_opt(*accept_ranges) {
                    Some(v) => v != "none"@,
                    None => false,
                })
            },
            Err(e) => !success(status) && e == (DownloadError::HttpError { status }),
        },
{
    if !status_is_success(status) {
        return Err(DownloadError::HttpError { status });
    }
    let total_size: u64 = content_size(content_length);
    let supports_ranges: bool = match accept_ranges {
        Some(v) => !text::same_text(v.as_str(), "none"),
        None => false,
    };
    Ok(ServerProbe { total_size, supports_ranges })
}

/// The site that a request for `url` names as its referer: what stands between `://` and the
/// next `/`, as an `https` address.
pub open spec fn referer(url: Seq<char>) -> Option<Seq<char>> {
    match text::find(url, "://"@) {
        Some(at) => {
            let rest = url.skip(at + 3);
            let host = match text::find(rest, seq!['/']) {
                Some(slash) => rest.take(slash),
                None => rest,
            };
            Some("https://"@ + host)
        },
        None => None,
    }
}

/// The site that a request for `url` names as its referer.
pub fn referer_of(url: &str) -> (r: Option<String>)
    ensures
        text::text_opt(r) == referer(url@),
{
    let v = text::chars_of(url);
    let mark = text::chars_of("://");
    proof {
        reveal_strlit("://");
    }
    match text::find_chars(&v, &mark) {
        Some(at) => {
            let size: usize = v.len();
            let rest_text = text::string_of_range(&v, at + 3, size);
            let rest = text::chars_of(rest_text.as_str());
            assert(rest@ == v@.skip(at + 3));
            let slash: Vec<char> = vec!['/'];
            assert(slash@ =~= seq!['/']);
            let to: usize = match text::find_chars(&rest, &slash) {
                Some(i) => i,
                None => rest.len(),
            };
            let mut r = "https://".to_owned();
            r.append(text::string_of_range(&rest, 0, to).as_str());
            assert(rest@.subrange(0, to as int) == rest@.take(to as int));
            assert(rest@.take(rest@.len() as int) == rest@);
            Some(r)
        },
        None => None,
    }
}

/// The headers of a request for `url`: the referer where there is one, then those of the user.
pub open spec fn request_headers(url: Seq<char>, headers: Seq<(Seq<char>, Seq<char>)>) -> Seq<
    (Seq<char>, Seq<char>),
> {
    match referer(url) {
        Some(site) => seq![("Referer"@, site)] + headers,
        None => headers,
    }
}

/// The headers of a request for `url`: the referer where there is one, then those of the user.
pub fn headers_for(url: &str, headers: &Vec<(String, String)>) -> (r: Vec<(String, String)>)
    ensures
        text::text_pairs(r@) == request_headers(url@, text::text_pairs(headers@)),
{
    let mut r: Vec<(String, String)> = Vec::new();
    match referer_of(url) {
        Some(site) => {
            r.push(("Referer".to_owned(), site));
        },
        None => {},
    }
    let ghost first = r@;
    let mut i: usize = 0;
    assert(text::text_pairs(headers@).take(0) =~= Seq::<(Seq<char>, Seq<char>)>::empty());
    while i < headers.len()
        invariant
            i <= headers@.len(),
            text::text_pairs(r@) == text::text_pairs(first) + text::text_pairs(headers@).take(
                i as int,
            ),
        decreases headers@.len() - i,
    {
        let ghost before = r@;
        r.push((headers[i].0.clone(), headers[i].1.clone()));
        proof {
            let added = (headers@[i as int].0@, headers@[i as int].1@);
            assert(text::text_pairs(r@) =~= text::text_pairs(before).push(added));
            assert(text::text_pairs(headers@).take(i + 1) =~= text::text_pairs(headers@).take(
                i as int,
            ).push(added));
        }
        i += 1;
    }
    proof {
        assert(text::text_pairs(headers@).take(headers@.len() as int) =~= text::text_pairs(headers@));
        match referer(url@) {
            Some(site) => assert(text::text_pairs(first) =~= seq![("Referer"@, site)]),
            None => assert(text::text_pairs(first) =~= Seq::<(Seq<char>, Seq<char>)>::empty()),
        }
        assert(text::text_pairs(r@) =~= request_headers(url@, text::text_pairs(headers@)));
    }
    r
}

/// The `i`-th of `n` ranges of a file of `total` bytes: all of the same size, but for the last,
/// which also takes what is left over.
pub open spec fn chunk(total: int, n: int, i: int) -> ChunkRange {
    ChunkRange {
        index: i as usize,
        start: (i * (total / n)) as u64,
        end: (if i == n - 1 {
            total - 1
        } else {
            (i + 1) * (total / n) - 1
        }) as u64,
    }
}

/// The `n` ranges of a file of `total` bytes.
pub open spec fn chunks(total: int, n: int) -> Seq<ChunkRange> {
    Seq::new(n as nat, |i: int| chunk(total, n, i))
}

/// The bounds of the `i`-th range, without machine arithmetic.
pub proof fn lemma_chunk_bounds(total: u64, n: u8, i: int)
    requires
        1 <= n <= total,
        0 <= i < n,
    ensures
        total as int / n as int >= 1,
        (i + 1) * (total as int / n as int) == i * (total as int / n as int) + total as int / n as int,
        0 <= i * (total as int / n as int),
        (i + 1) * (total as int / n as int) <= total,
        chunk(total as int, n as int, i).start == i * (total as int / n as int),
        chunk(total as int, n as int, i).end == (if i == n - 1 {
            total - 1
        } else {
            (i + 1) * (total as int / n as int) - 1
        }),
        chunk(total as int, n as int, i).index == i,
        chunk(total as int, n as int, i).start <= chunk(total as int, n as int, i).end < total,
        i == n - 1 || chunk(total as int, n as int, i).span() == total as int / n as int,
{
    let size = total as int / n as int;
    lemma_fundamental_div_mod(total as int, n as int);
    assert(size >= 1) by (nonlinear_arith)
        requires
            size == total as int / n as int,
            1 <= n <= total,
    ;
    lemma_mul_is_distributive_add(size, i, 1);
    assert((i + 1) * size == i * size + size) by (nonlinear_arith);
    assert(0 <= i * size) by (nonlinear_arith)
        requires
            0 <= i,
            1 <= size,
    ;
    assert((i + 1) * size <= n * size) by (nonlinear_arith)
        requires
            i + 1 <= n,
            1 <= size,
    ;
    assert(n * size <= total) by (nonlinear_arith)
        requires
            total == n * size + total as int % n as int,
            n >= 1,
    ;
}

/// Split `total_size` bytes into `n` evenly-sized `ChunkRange`s.
pub fn split_into_chunks(total_size: u64, n: u8) -> (r: Vec<ChunkRange>)
    requires
        1 <= n <= total_size,
    ensures
        r@ == chunks(total_size as int, n as int),
{
    let n64: u64 = n as u64;
    let chunk_size: u64 = total_size / n64;
    let mut r: Vec<ChunkRange> = Vec::new();
    let mut i: u64 = 0;
    while i < n64
        invariant
            n64 == n,
            1 <= n <= total_size,
            chunk_size == total_size as int / n as int,
            i <= n64,
            r@.len() == i,
            forall|k: int| 0 <= k < i ==> r@[k] == chunk(total_size as int, n as int, k),
        decreases n64 - i,
    {
        proof {
            lemma_chunk_bounds(total_size, n, i as int);
        }
        let start: u64 = i * chunk_size;
        let end: u64 = if i == n64 - 1 {
            total_size - 1
        } else {
            start + chunk_size - 1
        };
        r.push(ChunkRange { index: i as usize, start, end });
        i += 1;
    }
    assert(r@ =~= chunks(total_size as int, n as int));
    r
}

/// The ranges of a file follow each other without a gap or an overlap, from its first byte to
/// its last.
pub proof fn law_chunks_are_contiguous(total: u64, n: u8)
    requires
        1 <= n <= total,
    ensures
        chunks(total as int, n as int).len() == n,
        chunks(total as int, n as int)[0].start == 0,
        chunks(total as int, n as int)[n - 1].end == total - 1,
        forall|i: int|
            #![trigger chunks(total as int, n as int)[i]]
            0 <= i < n - 1 ==> chunks(total as int, n as int)[i].end + 1 == chunk(
                total as int,
                n as int,
                i + 1,
            ).start,
        forall|i: int|
            #![trigger chunks(total as int, n as int)[i]]
            0 <= i < n ==> chunks(total as int, n as int)[i].start <= chunks(
                total as int,
                n as int,
            )[i].end && chunks(total as int, n as int)[i].index == i,
{
    let all = chunks(total as int, n as int);
    assert forall|i: int| #![trigger all[i]] 0 <= i < n implies all[i].start <= all[i].end
        && all[i].index == i && (i < n - 1 ==> all[i].end + 1 == chunk(
        total as int,
        n as int,
        i + 1,
    ).start) by {
        lemma_chunk_bounds(total, n, i);
        if i < n - 1 {
            lemma_chunk_bounds(total, n, i + 1);
        }
    }
    assert(0 * (total as int / n as int) == 0);
    assert(all[0] == chunk(total as int, n as int, 0));
    assert(all[n - 1] == chunk(total as int, n as int, n - 1));
}

/// Every byte of a file lies in exactly one of its ranges.
pub proof fn law_chunks_partition_the_file(total: u64, n: u8, offset: int)
    requires
        1 <= n <= total,
        0 <= offset < total,
    ensures
        exists|i: int| 0 <= i < n && #[trigger] chunks(total as int, n as int)[i].covers(offset),
        forall|i: int, j: int|
            0 <= i < n && 0 <= j < n && #[trigger] chunks(total as int, n as int)[i].covers(offset)
                && #[trigger] chunks(total as int, n as int)[j].covers(offset) ==> i == j,
{
    let all = chunks(total as int, n as int);
    law_chunks_are_contiguous(total, n);
    lemma_some_chunk_covers(total, n, offset, n as int);
    assert forall|i: int, j: int|
        0 <= i < n && 0 <= j < n && #[trigger] all[i].covers(offset) && #[trigger] all[j].covers(
            offset,
        ) implies i == j by {
        if i < j {
            lemma_chunks_ascend(total, n, i, j);
        }
        if j < i {
            lemma_chunks_ascend(total, n, j, i);
        }
    }
}

proof fn lemma_chunks_ascend(total: u64, n: u8, i: int, j: int)
    requires
        1 <= n <= total,
        0 <= i < j < n,
    ensures
        chunk(total as int, n as int, i).end < chunk(total as int, n as int, j).start,
{
    lemma_chunk_bounds(total, n, i);
    lemma_chunk_bounds(total, n, j);
    lemma_mul_inequality(i + 1, j, total as int / n as int);
}

proof fn lemma_some_chunk_covers(total: u64, n: u8, offset: int, k: int)
    requires
        1 <= n <= total,
        0 <= k <= n,
        0 <= offset < total,
        k == n || offset < chunk(total as int, n as int, k).start,
    ensures
        exists|i: int| 0 <= i < n && #[trigger] chunks(total as int, n as int)[i].covers(offset),
    decreases k,
{
    let all = chunks(total as int, n as int);
    if k == 0 {
        lemma_chunk_bounds(total, n, 0);
        assert(0 * (total as int / n as int) == 0);
    } else {
        lemma_chunk_bounds(total, n, k - 1);
        if k < n {
            lemma_chunk_bounds(total, n, k);
        }
        if chunk(total as int, n as int, k - 1).start <= offset {
            assert(all[k - 1].covers(offset));
        } else {
            lemma_some_chunk_covers(total, n, offset, k - 1);
        }
    }
}

/// The bytes of `content` that `part` holds.
pub open spec fn piece(content: Seq<u8>, part: ChunkRange) -> Seq<u8> {
    content.subrange(part.start as int, part.end + 1)
}

/// The pieces of `content` that `parts` hold, one after the other.
pub open spec fn merged(content: Seq<u8>, parts: Seq<ChunkRange>) -> Seq<u8>
    decreases parts.len(),
{
    if parts.len() == 0 {
        Seq::empty()
    } else {
        merged(content, parts.drop_last()) + piece(content, parts.last())
    }
}

proof fn lemma_merged_prefix(content: Seq<u8>, total: u64, n: u8, k: int)
    requires
        1 <= n <= total,
        content.len() == total,
        0 <= k <= n,
    ensures
        merged(content, chunks(total as int, n as int).take(k)) == content.take(
            if k == n {
                total as int
            } else {
                k * (total as int / n as int)
            },
        ),
    decreases k,
{
    let all = chunks(total as int, n as int);
    if k == 0 {
        assert(0 * (total as int / n as int) == 0);
        assert(content.take(0) =~= Seq::empty());
    } else {
        lemma_merged_prefix(content, total, n, k - 1);
        lemma_chunk_bounds(total, n, k - 1);
        assert(all.take(k).drop_last() =~= all.take(k - 1));
        let last = chunk(total as int, n as int, k - 1);
        assert(all.take(k).last() == last);
        assert(content.take(last.start as int) + piece(content, last) =~= content.take(last.end + 1));
    }
}

/// The chunks of a file give back the file: its pieces, one after the other, are its content.
pub proof fn law_chunks_merge_into_the_file(content: Seq<u8>, total: u64, n: u8)
    requires
        1 <= n <= total,
        content.len() == total,
    ensures
        merged(content, chunks(total as int, n as int)) == content,
{
    let all = chunks(total as int, n as int);
    lemma_merged_prefix(content, total, n, n as int);
    assert(all.take(n as int) =~= all);
    assert(content.take(total as int) =~= content);
}

/// A file of the right length into which every piece has been written at its place, in whatever
/// order, holds the content.
pub proof fn law_written_chunks_make_the_file(file: Seq<u8>, content: Seq<u8>, total: u64, n: u8)
    requires
        1 <= n <= total,
        file.len() == total,
        content.len() == total,
        forall|i: int|
            0 <= i < n ==> #[trigger] piece(file, chunks(total as int, n as int)[i]) == piece(
                content,
                chunks(total as int, n as int)[i],
            ),
    ensures
        file == content,
{
    let all = chunks(total as int, n as int);
    assert forall|offset: int| 0 <= offset < total implies file[offset] == content[offset] by {
        law_chunks_partition_the_file(total, n, offset);
        let i = choose|i: int| 0 <= i < n && #[trigger] all[i].covers(offset);
        lemma_chunk_bounds(total, n, i);
        let within = offset - all[i].start;
        assert(piece(file, all[i])[within] == file[offset]);
        assert(piece(content, all[i])[within] == content[offset]);
    }
    assert(file =~= content);
}

/// How many bytes those of `parts` hold whose index is in `keep`.
pub open spec fn bytes_in(parts: Seq<ChunkRange>, keep: Set<usize>) -> int
    decreases parts.len(),
{
    if parts.len() == 0 {
        0
    } else {
        bytes_in(parts.drop_last(), keep) + (if keep.contains(parts.last().index) {
            parts.last().span()
        } else {
            0
        })
    }
}

/// Where nothing is kept, no bytes are.
pub proof fn lemma_no_bytes(parts: Seq<ChunkRange>)
    ensures
        bytes_in(parts, Set::empty()) == 0,
    decreases parts.len(),
{
    if parts.len() > 0 {
        lemma_no_bytes(parts.drop_last());
    }
}

/// The first `k` ranges of a file hold no more than the file, and all of them hold just the file.
pub proof fn lemma_bytes_in_prefix(total: u64, n: u8, keep: Set<usize>, k: int)
    requires
        1 <= n <= total,
        0 <= k <= n,
    ensures
        0 <= bytes_in(chunks(total as int, n as int).take(k), keep) <= (if k == n {
            total as int
        } else {
            k * (total as int / n as int)
        }),
        (forall|i: usize| i < n ==> #[trigger] keep.contains(i)) ==> bytes_in(
            chunks(total as int, n as int).take(k),
            keep,
        ) == (if k == n {
            total as int
        } else {
            k * (total as int / n as int)
        }),
    decreases k,
{
    let all = chunks(total as int, n as int);
    if k == 0 {
        assert(0 * (total as int / n as int) == 0);
    } else {
        lemma_bytes_in_prefix(total, n, keep, k - 1);
        lemma_chunk_bounds(total, n, k - 1);
        assert(all.take(k).drop_last() =~= all.take(k - 1));
        assert(all.take(k).last() == chunk(total as int, n as int, k - 1));
    }
}

/// What is kept and what is not add up to everything.
pub proof fn lemma_bytes_split(parts: Seq<ChunkRange>, keep: Set<usize>, rest: Set<usize>)
    requires
        forall|i: int|
            0 <= i < parts.len() ==> keep.contains((#[trigger] parts[i]).index) != rest.contains(
                parts[i].index,
            ),
    ensures
        bytes_in(parts, keep) + bytes_in(parts, rest) == bytes_in(parts, keep.union(rest)),
    decreases parts.len(),
{
    if parts.len() > 0 {
        assert forall|i: int| 0 <= i < parts.drop_last().len() implies keep.contains(
            (#[trigger] parts.drop_last()[i]).index,
        ) != rest.contains(parts.drop_last()[i].index) by {
            assert(parts[i] == parts.drop_last()[i]);
        }
        lemma_bytes_split(parts.drop_last(), keep, rest);
        assert(parts.last() == parts[parts.len() - 1]);
    }
}

/// The value of an HTTP `Range` header for the bytes of `part`.
pub open spec fn range_value(part: ChunkRange) -> Seq<char> {
    "bytes="@ + text::decimal(part.start as nat) + "-"@ + text::decimal(part.end as nat)
}

/// The value of an HTTP `Range` header for the bytes of `part`.
pub fn range_header(part: &ChunkRange) -> (r: String)
    ensures
        r@ == range_value(*part),
{
    let mut r = "bytes=".to_owned();
    r.append(text::decimal_text(part.start).as_str());
    r.append("-");
    r.append(text::decimal_text(part.end).as_str());
    r
}

} // verus!
