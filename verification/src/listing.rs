//! Tables of jobs for the terminal.

use vstd::prelude::*;
use vstd::string::*;
use vstd::utf8::*;

use crate::text;

verus! {

/// Whether `url` is written in full or can be cut after its first 47 bytes.
pub open spec fn fits_column(url: Seq<char>) -> bool {
    encode_utf8(url).len() > 48 ==> is_char_boundary(encode_utf8(url), 47)
}

/// Whether `url` is written in full or can be cut after its first 47 bytes.
pub fn can_shorten(url: &str) -> (r: bool)
    ensures
        r == fits_column(url@),
{
    url.as_bytes().len() <= 48 || url.is_char_boundary(47)
}

/// `url` as it stands in its column: cut after 47 bytes where it is longer than 48.
pub open spec fn short_url(url: Seq<char>) -> Seq<char> {
    if encode_utf8(url).len() > 48 {
        decode_utf8(encode_utf8(url).subrange(0, 47)) + "…"@
    } else {
        url
    }
}

/// `url` as it stands in its column: cut after 47 bytes where it is longer than 48.
pub fn shorten_url(url: &str) -> (r: String)
    requires
        fits_column(url@),
    ensures
        r@ == short_url(url@),
{
    if url.as_bytes().len() > 48 {
        let (head, _tail) = url.split_at(47);
        proof {
            encode_utf8_decode_utf8(head@);
        }
        let mut r = head.to_owned();
        r.append("…");
        r
    } else {
        url.to_owned()
    }
}

/// The title line of a table, with a status column of `status_width` characters.
pub open spec fn title(status_width: nat) -> Seq<char> {
    "\n"@ + text::padded("ID"@, 5) + " "@ + text::padded("URL"@, 50) + " "@ + text::padded(
        "STATUS"@,
        status_width,
    ) + " "@ + text::padded("PROGRESS"@, 8) + "\n"@
}

/// The title line of a table and the rule of `width` dashes under it.
pub open spec fn head(status_width: nat, width: nat) -> Seq<char> {
    title(status_width) + text::repeated('─', width) + "\n"@
}

/// The title line of a table and the rule of `width` dashes under it.
pub fn head_text(status_width: usize, width: usize) -> (r: String)
    ensures
        r@ == head(status_width as nat, width as nat),
{
    let mut r = "\n".to_owned();
    r.append(text::pad_right("ID", 5).as_str());
    r.append(" ");
    r.append(text::pad_right("URL", 50).as_str());
    r.append(" ");
    r.append(text::pad_right("STATUS", status_width).as_str());
    r.append(" ");
    r.append(text::pad_right("PROGRESS", 8).as_str());
    r.append("\n");
    r.append(text::repeat_char('─', width).as_str());
    r.append("\n");
    r
}

/// The line of one job: its number, its URL, the status as given, and the percentage.
pub open spec fn row(id: u64, url: Seq<char>, status: Seq<char>, percent: Seq<char>) -> Seq<char> {
    text::padded(text::decimal(id as nat), 5) + " "@ + text::padded(short_url(url), 50) + " "@
        + status + " "@ + percent + "%\n"@
}

/// The line of one job: its number, its URL, the status as given, and the percentage.
pub fn row_text(id: u64, url: &str, status: &str, percent: &str) -> (r: String)
    requires
        fits_column(url@),
    ensures
        r@ == row(id, url@, status@, percent@),
{
    let mut r = text::pad_right(text::decimal_text(id).as_str(), 5);
    r.append(" ");
    r.append(text::pad_right(shorten_url(url).as_str(), 50).as_str());
    r.append(" ");
    r.append(status);
    r.append(" ");
    r.append(percent);
    r.append("%\n");
    r
}

/// A URL of at most 48 bytes stands in full; a longer one is cut to its first 47 bytes and an
/// ellipsis.
pub proof fn law_short_urls_are_beginnings(url: Seq<char>)
    requires
        fits_column(url),
    ensures
        encode_utf8(url).len() <= 48 ==> short_url(url) == url,
        encode_utf8(url).len() > 48 ==> exists|head: Seq<char>|
            short_url(url) == #[trigger] (head + "…"@) && encode_utf8(head) == encode_utf8(
                url,
            ).subrange(0, 47),
{
    if encode_utf8(url).len() > 48 {
        let bytes = encode_utf8(url);
        encode_utf8_valid_utf8(url);
        valid_utf8_split(bytes, 47);
        let head = decode_utf8(bytes.subrange(0, 47));
        decode_utf8_encode_utf8(bytes.subrange(0, 47));
        assert(short_url(url) == head + "…"@);
    }
}

/// A row begins with the number of its job, holds its URL as it is cut, and ends with its status and
/// its percentage.
pub proof fn law_rows_show_the_job(id: u64, url: Seq<char>, status: Seq<char>, percent: Seq<char>)
    ensures
        text::begins_with(row(id, url, status, percent), text::decimal(id as nat)),
        text::has_text(row(id, url, status, percent), short_url(url)),
        exists|before: Seq<char>|
            row(id, url, status, percent) == #[trigger] (before + (status + " "@ + percent + "%\n"@)),
{
    let r = row(id, url, status, percent);
    let n = text::decimal(id as nat);
    let left = text::padded(n, 5);
    let middle = text::padded(short_url(url), 50);
    text::law_padding_adds_spaces(n, 5);
    text::law_padding_adds_spaces(short_url(url), 50);
    let end = status + " "@ + percent + "%\n"@;
    assert(left =~= n + left.skip(n.len() as int));
    assert(middle =~= short_url(url) + middle.skip(short_url(url).len() as int));
    assert(r =~= left + " "@ + middle + " "@ + end);
    assert(r =~= n + (left.skip(n.len() as int) + " "@ + middle + " "@ + end));
    text::law_beginnings_stand_first(r, n);
    assert(r =~= (left + " "@) + short_url(url) + (middle.skip(short_url(url).len() as int) + " "@
        + end));
    text::law_found_text_stands_there(r, short_url(url));
    assert(r =~= (left + " "@ + middle + " "@) + end);
}

/// The columns of a table line up: the URL stands in the seventh place and the status in the
/// fifty-eighth, as long as the number has at most five digits and the URL at most 50 letters.
pub proof fn law_columns_line_up(id: u64, url: Seq<char>, status: Seq<char>, percent: Seq<char>)
    requires
        text::decimal(id as nat).len() <= 5,
        short_url(url).len() <= 50,
    ensures
        ({
            let r = row(id, url, status, percent);
            let n = text::decimal(id as nat);
            let u = short_url(url);
            &&& r.take(n.len() as int) == n
            &&& r.subrange(6, 6int + u.len()) == u
            &&& r.skip(57) == status + " "@ + percent + "%\n"@
            &&& forall|i: int| n.len() <= i < 6 ==> #[trigger] r[i] == ' '
            &&& forall|i: int| 6 + u.len() <= i < 57 ==> #[trigger] r[i] == ' '
        }),
{
    reveal_strlit(" ");
    let r = row(id, url, status, percent);
    let n = text::decimal(id as nat);
    let u = short_url(url);
    let left = text::padded(n, 5);
    let middle = text::padded(u, 50);
    text::law_padding_adds_spaces(n, 5);
    text::law_padding_adds_spaces(u, 50);
    let end = status + " "@ + percent + "%\n"@;
    assert(r =~= left + " "@ + middle + " "@ + end);
    assert forall|i: int| 0 <= i < n.len() implies #[trigger] r[i] == n[i] by {
        assert(left.take(n.len() as int)[i] == left[i]);
    }
    assert forall|i: int| 0 <= i < u.len() implies #[trigger] r[6 + i] == u[i] by {
        assert(middle.take(u.len() as int)[i] == middle[i]);
    }
    assert(r.take(n.len() as int) =~= n);
    assert(r.subrange(6, 6int + u.len()) =~= u);
    assert(r.skip(57) =~= end);
}

/// Every URL of ASCII characters has a place in its column, and so has every URL of at most 48
/// bytes. One of ASCII characters is cut after its 47th.
pub proof fn law_plain_urls_fit(url: Seq<char>)
    ensures
        encode_utf8(url).len() <= 48 ==> fits_column(url),
        is_ascii_chars(url) ==> fits_column(url),
        is_ascii_chars(url) && url.len() > 48 ==> short_url(url) == url.take(47) + "…"@,
        is_ascii_chars(url) && url.len() <= 48 ==> short_url(url) == url,
{
    let bytes = encode_utf8(url);
    if is_ascii_chars(url) {
        is_ascii_chars_encode_utf8(url);
        encode_utf8_valid_utf8(url);
        if bytes.len() > 48 {
            assert(bytes[47] < 0x80);
            is_char_boundary_iff_not_is_continuation_byte(bytes, 47);
            let head = url.take(47);
            assert(is_ascii_chars(head));
            is_ascii_chars_encode_utf8(head);
            assert(encode_utf8(head) =~= bytes.subrange(0, 47));
            encode_utf8_decode_utf8(head);
        }
    }
}

/// A wider table has a longer rule under the same titles.
pub proof fn law_rules_are_as_wide_as_asked(status_width: nat, width: nat, i: int)
    requires
        0 <= i < width,
    ensures
        head(status_width, width + 1).len() == head(status_width, width).len() + 1,
        head(status_width, width).len() == head(status_width, 0).len() + width,
        head(status_width, width)[head(status_width, 0).len() - 1 + i] == '─',
        head(status_width, width).last() == '\n',
{
    reveal_strlit("\n");
    assert("\n"@[0] == '\n');
}

} // verus!
