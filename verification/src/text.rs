//! Text building blocks: characters, searching, splitting, trimming, and decimal numbers.
//!
//! Every function here is specified over the sequence of characters of its arguments.

use vstd::prelude::*;
use vstd::string::*;

verus! {

/// `String::push` appends one character at the end of the string.
pub assume_specification[ String::push ](s: &mut String, c: char)
    ensures
        final(s)@ == old(s)@.push(c),
;

/// The texts held by a sequence of strings.
pub open spec fn texts(v: Seq<String>) -> Seq<Seq<char>> {
    Seq::new(v.len(), |i: int| v[i]@)
}

/// The texts held by a sequence of pairs of strings.
pub open spec fn text_pairs(v: Seq<(String, String)>) -> Seq<(Seq<char>, Seq<char>)> {
    Seq::new(v.len(), |i: int| (v[i].0@, v[i].1@))
}

/// The text held by an optional string.
pub open spec fn text_opt(v: Option<String>) -> Option<Seq<char>> {
    match v {
        Some(s) => Some(s@),
        None => None,
    }
}

/// The characters of `s`.
pub fn chars_of(s: &str) -> (v: Vec<char>)
    ensures
        v@ == s@,
{
    let mut v: Vec<char> = Vec::new();
    for c in it: s.chars()
        invariant
            v@ == it.seq().take(it.index() as int),
            it.seq() == s@,
    {
        v.push(c);
    }
    v
}

/// The string made of the characters `v[from..to]`.
pub fn string_of_range(v: &Vec<char>, from: usize, to: usize) -> (s: String)
    requires
        from <= to <= v@.len(),
    ensures
        s@ == v@.subrange(from as int, to as int),
{
    let mut s = String::new();
    let mut i: usize = from;
    while i < to
        invariant
            from <= i <= to <= v@.len(),
            s@ == v@.subrange(from as int, i as int),
        decreases to - i,
    {
        s.push(v[i]);
        i += 1;
    }
    s
}

/// A copy of `s`.
pub fn copy_text(s: &str) -> (r: String)
    ensures
        r@ == s@,
{
    s.to_owned()
}

/// A copy of `v`.
pub fn copy_texts(v: &Vec<String>) -> (r: Vec<String>)
    ensures
        texts(r@) == texts(v@),
{
    let mut r: Vec<String> = Vec::new();
    let mut i: usize = 0;
    while i < v.len()
        invariant
            i <= v@.len(),
            r@.len() == i,
            forall|j: int| 0 <= j < i ==> (#[trigger] r@[j])@ == v@[j]@,
        decreases v@.len() - i,
    {
        r.push(v[i].clone());
        i += 1;
    }
    r
}

/// A copy of `v`.
pub fn copy_pairs(v: &Vec<(String, String)>) -> (r: Vec<(String, String)>)
    ensures
        text_pairs(r@) == text_pairs(v@),
{
    let mut r: Vec<(String, String)> = Vec::new();
    let mut i: usize = 0;
    while i < v.len()
        invariant
            i <= v@.len(),
            r@.len() == i,
            forall|j: int| 0 <= j < i ==> (#[trigger] r@[j]).0@ == v@[j].0@ && r@[j].1@ == v@[j].1@,
        decreases v@.len() - i,
    {
        r.push((v[i].0.clone(), v[i].1.clone()));
        i += 1;
    }
    r
}

/// Whether `a` and `b` hold the same characters.
pub fn same_text(a: &str, b: &str) -> (r: bool)
    ensures
        r == (a@ == b@),
{
    a.to_owned() == b.to_owned()
}

/// Whether `s` holds `p` at position `at`.
pub open spec fn matches_at(s: Seq<char>, p: Seq<char>, at: int) -> bool {
    0 <= at && at + p.len() <= s.len() && s.subrange(at, at + p.len()) == p
}

/// Whether `p` occurs somewhere in `s`.
pub open spec fn has_text(s: Seq<char>, p: Seq<char>) -> bool {
    exists|at: int| matches_at(s, p, at)
}

/// The first position at or after `from` at which `p` occurs in `s`.
pub open spec fn find_from(s: Seq<char>, p: Seq<char>, from: int) -> Option<int>
    decreases s.len() + 1 - from,
{
    if from < 0 || from + p.len() > s.len() {
        None
    } else if matches_at(s, p, from) {
        Some(from)
    } else {
        find_from(s, p, from + 1)
    }
}

/// The first position at which `p` occurs in `s`.
pub open spec fn find(s: Seq<char>, p: Seq<char>) -> Option<int> {
    find_from(s, p, 0)
}

/// `find_from` gives the least position, and gives none only when there is none.
pub proof fn lemma_find_from(s: Seq<char>, p: Seq<char>, from: int)
    requires
        0 <= from,
    ensures
        match find_from(s, p, from) {
            Some(i) => from <= i && matches_at(s, p, i) && (forall|j: int|
                from <= j < i ==> !#[trigger] matches_at(s, p, j)),
            None => forall|j: int| from <= j ==> !#[trigger] matches_at(s, p, j),
        },
    decreases s.len() + 1 - from,
{
    if from + p.len() > s.len() || matches_at(s, p, from) {
    } else {
        lemma_find_from(s, p, from + 1);
    }
}

fn matches_here(s: &Vec<char>, p: &Vec<char>, at: usize) -> (r: bool)
    requires
        at + p@.len() <= s@.len(),
    ensures
        r == matches_at(s@, p@, at as int),
{
    let n: usize = s.len();
    let mut k: usize = 0;
    while k < p.len()
        invariant
            at + p@.len() <= s@.len() == n,
            k <= p@.len(),
            forall|j: int| 0 <= j < k ==> s@[at + j] == p@[j],
        decreases p@.len() - k,
    {
        if s[at + k] != p[k] {
            assert(s@.subrange(at as int, at + p@.len())[k as int] != p@[k as int]);
            return false;
        }
        k += 1;
    }
    assert(s@.subrange(at as int, at + p@.len()) =~= p@);
    true
}

/// The first position at which `p` occurs in `s`.
pub fn find_chars(s: &Vec<char>, p: &Vec<char>) -> (r: Option<usize>)
    ensures
        match r {
            Some(i) => find(s@, p@) == Some(i as int) && matches_at(s@, p@, i as int),
            None => find(s@, p@) is None,
        },
{
    if p.len() > s.len() {
        return None;
    }
    let last: usize = s.len() - p.len();
    let mut i: usize = 0;
    while i <= last
        invariant
            last + p@.len() == s@.len(),
            i <= last + 1,
            find_from(s@, p@, 0) == find_from(s@, p@, i as int),
        decreases last + 1 - i,
    {
        if matches_here(s, p, i) {
            return Some(i);
        }
        if i == last {
            assert(find_from(s@, p@, i + 1) is None);
            return None;
        }
        i += 1;
    }
    None
}

/// Whether `s` begins with `p`.
pub open spec fn begins_with(s: Seq<char>, p: Seq<char>) -> bool {
    matches_at(s, p, 0)
}

/// Whether `s` begins with `p`.
pub fn starts_with(s: &str, p: &str) -> (r: bool)
    ensures
        r == begins_with(s@, p@),
{
    let s = chars_of(s);
    let p = chars_of(p);
    if p.len() > s.len() {
        return false;
    }
    matches_here(&s, &p, 0)
}

/// Whether `p` occurs somewhere in `s`.
pub fn contains_text(s: &str, p: &str) -> (r: bool)
    ensures
        r == has_text(s@, p@),
{
    let s = chars_of(s);
    let p = chars_of(p);
    proof {
        lemma_find_from(s@, p@, 0);
    }
    find_chars(&s, &p).is_some()
}

/// The pieces of `s` between the characters of `seps`, in order; there is always one piece more
/// than there are separators in `s`.
pub open spec fn split_on(s: Seq<char>, seps: Seq<char>) -> Seq<Seq<char>>
    decreases s.len(),
{
    if s.len() == 0 {
        seq![Seq::empty()]
    } else {
        let before = split_on(s.drop_last(), seps);
        if seps.contains(s.last()) {
            before.push(Seq::empty())
        } else {
            before.drop_last().push(before.last().push(s.last()))
        }
    }
}

/// There is always at least one piece.
pub proof fn lemma_split_nonempty(s: Seq<char>, seps: Seq<char>)
    ensures
        split_on(s, seps).len() >= 1,
    decreases s.len(),
{
    if s.len() > 0 {
        lemma_split_nonempty(s.drop_last(), seps);
    }
}

/// A text without separators is one piece.
pub proof fn lemma_split_one(s: Seq<char>, seps: Seq<char>)
    requires
        forall|i: int| 0 <= i < s.len() ==> !seps.contains(#[trigger] s[i]),
    ensures
        split_on(s, seps) == seq![s],
    decreases s.len(),
{
    if s.len() > 0 {
        lemma_split_one(s.drop_last(), seps);
        assert(s.drop_last().push(s.last()) =~= s);
        assert(!seps.contains(s[s.len() - 1]));
        assert(split_on(s, seps) =~= seq![s]);
    } else {
        assert(s =~= Seq::empty());
    }
}

/// A separator and a text without separators add that text as the last piece.
pub proof fn lemma_split_append(s: Seq<char>, sep: char, piece: Seq<char>, seps: Seq<char>)
    requires
        seps.contains(sep),
        forall|i: int| 0 <= i < piece.len() ==> !seps.contains(#[trigger] piece[i]),
    ensures
        split_on(s + seq![sep] + piece, seps) == split_on(s, seps).push(piece),
    decreases piece.len(),
{
    let whole = s + seq![sep] + piece;
    if piece.len() == 0 {
        assert(whole.drop_last() =~= s);
        assert(whole.last() == sep);
        assert(piece =~= Seq::empty());
    } else {
        lemma_split_append(s, sep, piece.drop_last(), seps);
        assert(whole.drop_last() =~= s + seq![sep] + piece.drop_last());
        assert(whole.last() == piece[piece.len() - 1]);
        let before = split_on(s, seps).push(piece.drop_last());
        assert(before.drop_last() =~= split_on(s, seps));
        assert(piece.drop_last().push(piece.last()) =~= piece);
    }
}

fn is_one_of(c: char, seps: &Vec<char>) -> (r: bool)
    ensures
        r == seps@.contains(c),
{
    let mut i: usize = 0;
    while i < seps.len()
        invariant
            i <= seps@.len(),
            forall|j: int| 0 <= j < i ==> seps@[j] != c,
        decreases seps@.len() - i,
    {
        if seps[i] == c {
            return true;
        }
        i += 1;
    }
    false
}

/// Splits `s` at every character of `seps`.
pub fn split_text(s: &str, seps: &Vec<char>) -> (r: Vec<String>)
    ensures
        texts(r@) == split_on(s@, seps@),
{
    let v = chars_of(s);
    let mut r: Vec<String> = Vec::new();
    let mut start: usize = 0;
    let mut i: usize = 0;
    proof {
        assert(v@.take(0) == Seq::<char>::empty());
        assert(v@.subrange(0, 0) == Seq::<char>::empty());
        assert(texts(r@).push(Seq::<char>::empty()) == seq![Seq::<char>::empty()]);
    }
    while i < v.len()
        invariant
            start <= i <= v@.len(),
            texts(r@).push(v@.subrange(start as int, i as int)) == split_on(v@.take(i as int), seps@),
        decreases v@.len() - i,
    {
        let ghost before = r@;
        proof {
            assert(v@.take(i + 1).drop_last() == v@.take(i as int));
            assert(v@.take(i + 1).last() == v@[i as int]);
            let old_split = split_on(v@.take(i as int), seps@);
            assert(old_split.drop_last() == texts(r@));
            assert(old_split.last() == v@.subrange(start as int, i as int));
            assert(v@.subrange(start as int, i + 1) == v@.subrange(start as int, i as int).push(
                v@[i as int],
            ));
        }
        if is_one_of(v[i], seps) {
            r.push(string_of_range(&v, start, i));
            proof {
                assert(texts(r@) == texts(before).push(v@.subrange(start as int, i as int)));
                assert(v@.subrange(i + 1, i + 1) == Seq::<char>::empty());
            }
            start = i + 1;
        }
        i += 1;
    }
    let ghost before = r@;
    r.push(string_of_range(&v, start, v.len()));
    proof {
        assert(texts(r@) == texts(before).push(v@.subrange(start as int, v@.len() as int)));
        assert(v@.take(v@.len() as int) == v@);
    }
    r
}

/// The characters with the Unicode `White_Space` property.
pub open spec fn space_chars() -> Seq<char> {
    seq![
        '\u{9}', '\u{a}', '\u{b}', '\u{c}', '\u{d}', ' ', '\u{85}', '\u{a0}', '\u{1680}',
        '\u{2000}', '\u{2001}', '\u{2002}', '\u{2003}', '\u{2004}', '\u{2005}', '\u{2006}',
        '\u{2007}', '\u{2008}', '\u{2009}', '\u{200a}', '\u{2028}', '\u{2029}', '\u{202f}',
        '\u{205f}', '\u{3000}',
    ]
}

/// The characters with the Unicode `White_Space` property.
pub fn space_list() -> (r: Vec<char>)
    ensures
        r@ == space_chars(),
{
    let r: Vec<char> = vec![
        '\u{9}', '\u{a}', '\u{b}', '\u{c}', '\u{d}', ' ', '\u{85}', '\u{a0}', '\u{1680}',
        '\u{2000}', '\u{2001}', '\u{2002}', '\u{2003}', '\u{2004}', '\u{2005}', '\u{2006}',
        '\u{2007}', '\u{2008}', '\u{2009}', '\u{200a}', '\u{2028}', '\u{2029}', '\u{202f}',
        '\u{205f}', '\u{3000}',
    ];
    assert(r@ =~= space_chars());
    r
}

/// `s` without the characters of `cs` at its beginning.
pub open spec fn drop_leading(s: Seq<char>, cs: Seq<char>) -> Seq<char>
    decreases s.len(),
{
    if s.len() > 0 && cs.contains(s[0]) {
        drop_leading(s.drop_first(), cs)
    } else {
        s
    }
}

/// `s` without the characters of `cs` at its end.
pub open spec fn drop_trailing(s: Seq<char>, cs: Seq<char>) -> Seq<char>
    decreases s.len(),
{
    if s.len() > 0 && cs.contains(s.last()) {
        drop_trailing(s.drop_last(), cs)
    } else {
        s
    }
}

/// `s` without the characters of `cs` at either end.
pub open spec fn strip(s: Seq<char>, cs: Seq<char>) -> Seq<char> {
    drop_trailing(drop_leading(s, cs), cs)
}

/// `s` without white space at either end.
pub open spec fn trim(s: Seq<char>) -> Seq<char> {
    strip(s, space_chars())
}

/// Removes the characters of `cs` from both ends of `s`.
pub fn strip_text(s: &str, cs: &Vec<char>) -> (r: String)
    ensures
        r@ == strip(s@, cs@),
{
    let v = chars_of(s);
    let n: usize = v.len();
    let mut lo: usize = 0;
    assert(v@.subrange(0, n as int) == v@);
    while lo < n && is_one_of(v[lo], cs)
        invariant
            lo <= n == v@.len(),
            drop_leading(v@.subrange(lo as int, n as int), cs@) == drop_leading(v@, cs@),
        decreases n - lo,
    {
        assert(v@.subrange(lo as int, n as int).drop_first() == v@.subrange(lo + 1, n as int));
        lo += 1;
    }
    assert(drop_leading(v@, cs@) == v@.subrange(lo as int, n as int));
    let mut hi: usize = n;
    while lo < hi && is_one_of(v[hi - 1], cs)
        invariant
            lo <= hi <= n == v@.len(),
            drop_trailing(v@.subrange(lo as int, hi as int), cs@) == strip(v@, cs@),
        decreases hi,
    {
        assert(v@.subrange(lo as int, hi as int).drop_last() == v@.subrange(lo as int, hi - 1));
        hi -= 1;
    }
    string_of_range(&v, lo, hi)
}

/// Removes white space from both ends of `s`.
pub fn trim_text(s: &str) -> (r: String)
    ensures
        r@ == trim(s@),
{
    strip_text(s, &space_list())
}

/// The pieces that are not empty.
pub open spec fn nonempty(pieces: Seq<Seq<char>>) -> Seq<Seq<char>> {
    pieces.filter(|w: Seq<char>| w.len() > 0)
}

/// The words of `s`: its longest runs of characters that are not white space.
pub open spec fn words(s: Seq<char>) -> Seq<Seq<char>> {
    nonempty(split_on(s, space_chars()))
}

/// The words of `s`, in order.
pub fn split_words(s: &str) -> (r: Vec<String>)
    ensures
        texts(r@) == words(s@),
{
    let pieces = split_text(s, &space_list());
    let mut r: Vec<String> = Vec::new();
    let mut i: usize = 0;
    proof {
        reveal(Seq::filter);
        assert(texts(pieces@).take(0) == Seq::<Seq<char>>::empty());
        assert(texts(r@) == nonempty(texts(pieces@).take(0)));
    }
    while i < pieces.len()
        invariant
            i <= pieces@.len(),
            texts(r@) == nonempty(texts(pieces@).take(i as int)),
        decreases pieces@.len() - i,
    {
        let ghost before = r@;
        proof {
            reveal(Seq::filter);
            assert(texts(pieces@).take(i + 1).drop_last() == texts(pieces@).take(i as int));
            assert(texts(pieces@).take(i + 1).last() == pieces@[i as int]@);
        }
        if !pieces[i].as_str().is_empty() {
            r.push(pieces[i].clone());
            assert(texts(r@) == texts(before).push(pieces@[i as int]@));
        }
        i += 1;
    }
    assert(texts(pieces@).take(pieces@.len() as int) == texts(pieces@));
    r
}

/// The character of the decimal digit `d`.
pub open spec fn digit_char(d: int) -> char {
    (48 + d) as char
}

/// The decimal digits of `n`, without leading zeros.
pub open spec fn decimal(n: nat) -> Seq<char>
    decreases n,
{
    if n < 10 {
        seq![digit_char(n as int)]
    } else {
        decimal(n / 10).push(digit_char((n % 10) as int))
    }
}

fn digit(d: u8) -> (c: char)
    requires
        d < 10,
    ensures
        c == digit_char(d as int),
{
    (48u8 + d) as char
}

/// `n` in decimal.
pub fn decimal_text(n: u64) -> (s: String)
    ensures
        s@ == decimal(n as nat),
    decreases n,
{
    if n < 10 {
        let mut s = String::new();
        s.push(digit(n as u8));
        s
    } else {
        let mut s = decimal_text(n / 10);
        s.push(digit((n % 10) as u8));
        s
    }
}

/// `n` in decimal with at least two digits.
pub open spec fn two_digits(n: nat) -> Seq<char> {
    if n < 10 {
        seq!['0'] + decimal(n)
    } else {
        decimal(n)
    }
}

/// `n` in decimal with at least two digits.
pub fn two_digits_text(n: u64) -> (s: String)
    ensures
        s@ == two_digits(n as nat),
{
    let mut s = String::new();
    if n < 10 {
        s.push('0');
    }
    s.append(decimal_text(n).as_str());
    assert(n >= 10 ==> s@ =~= decimal(n as nat));
    s
}

/// Whether `c` is a decimal digit.
pub open spec fn is_digit(c: char) -> bool {
    '0' <= c <= '9'
}

/// Whether `s` consists of decimal digits.
pub open spec fn all_digits(s: Seq<char>) -> bool {
    forall|i: int| 0 <= i < s.len() ==> is_digit(#[trigger] s[i])
}

/// The number that the digits `s` write in decimal.
pub open spec fn digits_value(s: Seq<char>) -> nat
    decreases s.len(),
{
    if s.len() == 0 {
        0
    } else {
        (digits_value(s.drop_last()) * 10 + (s.last() as int - 48)) as nat
    }
}

/// The number that `s` writes in decimal: digits, at least one of them, after an optional `+`.
pub open spec fn parse_number(s: Seq<char>) -> Option<nat> {
    let body = if s.len() > 0 && s[0] == '+' {
        s.drop_first()
    } else {
        s
    };
    if body.len() > 0 && all_digits(body) {
        Some(digits_value(body))
    } else {
        None
    }
}

/// The number that `s` writes, where it is at most `max`.
pub open spec fn parse_up_to(s: Seq<char>, max: nat) -> Option<nat> {
    match parse_number(s) {
        Some(v) if v <= max => Some(v),
        _ => None,
    }
}

/// A number is at least as large as the number that a prefix of its digits writes.
proof fn lemma_value_grows(s: Seq<char>, k: int)
    requires
        0 <= k <= s.len(),
        all_digits(s),
    ensures
        digits_value(s.take(k)) <= digits_value(s),
    decreases s.len() - k,
{
    if k < s.len() {
        lemma_value_grows(s, k + 1);
        assert(s.take(k + 1).drop_last() == s.take(k));
        assert(is_digit(s[k]));
    } else {
        assert(s.take(k) == s);
    }
}

/// The number that `s` writes in decimal, if it is at most `max`.
pub fn parse_text(s: &str, max: u64) -> (r: Option<u64>)
    ensures
        match r {
            Some(v) => parse_up_to(s@, max as nat) == Some(v as nat),
            None => parse_up_to(s@, max as nat) is None,
        },
{
    let v = chars_of(s);
    let start: usize = if v.len() > 0 && v[0] == '+' {
        1
    } else {
        0
    };
    let n: usize = v.len();
    if start == n {
        return None;
    }
    let ghost body = v@.subrange(start as int, n as int);
    assert(start == 0 ==> body == v@);
    assert(start == 1 ==> body == v@.drop_first());
    let mut total: u64 = 0;
    let mut i: usize = start;
    while i < n
        invariant
            start <= i <= n == v@.len(),
            start < n,
            body == v@.subrange(start as int, n as int),
            parse_number(v@) == (if all_digits(body) {
                Some(digits_value(body))
            } else {
                None
            }),
            v@ == s@,
            all_digits(body.take(i - start)),
            total == digits_value(body.take(i - start)),
        decreases n - i,
    {
        let c: char = v[i];
        assert(c == body[i - start]);
        if !('0' <= c && c <= '9') {
            return None;
        }
        let d: u64 = (c as u32 - 48) as u64;
        proof {
            assert(body.take(i + 1 - start).drop_last() == body.take(i - start));
            assert(body.take(i + 1 - start).last() == c);
            if all_digits(body) {
                lemma_value_grows(body, i + 1 - start);
            }
        }
        if total > (u64::MAX - d) / 10 {
            return None;
        }
        total = total * 10 + d;
        i += 1;
    }
    assert(body.take(n - start) == body);
    if total <= max {
        Some(total)
    } else {
        None
    }
}

/// Decimal digits write the number that they were made from.
pub proof fn law_decimal_round_trip(n: nat)
    ensures
        all_digits(decimal(n)),
        decimal(n).len() > 0,
        digits_value(decimal(n)) == n,
        parse_number(decimal(n)) == Some(n),
    decreases n,
{
    if n < 10 {
        assert(decimal(n).drop_last() == Seq::<char>::empty());
        assert(digits_value(Seq::<char>::empty()) == 0);
    } else {
        law_decimal_round_trip(n / 10);
        assert(decimal(n).drop_last() == decimal(n / 10));
    }
}

/// The character `c`, `n` times.
pub open spec fn repeated(c: char, n: nat) -> Seq<char> {
    Seq::new(n, |i: int| c)
}

/// The character `c`, `n` times.
pub fn repeat_char(c: char, n: usize) -> (s: String)
    ensures
        s@ == repeated(c, n as nat),
{
    let mut s = String::new();
    let mut i: usize = 0;
    while i < n
        invariant
            i <= n,
            s@ == repeated(c, i as nat),
        decreases n - i,
    {
        s.push(c);
        i += 1;
    }
    s
}

/// `s` followed by as many spaces as bring it to `width` characters.
pub open spec fn padded(s: Seq<char>, width: nat) -> Seq<char> {
    if s.len() < width {
        s + repeated(' ', (width - s.len()) as nat)
    } else {
        s
    }
}

/// `s` followed by as many spaces as bring it to `width` characters.
pub fn pad_right(s: &str, width: usize) -> (r: String)
    ensures
        r@ == padded(s@, width as nat),
{
    let mut r = s.to_owned();
    let n: usize = s.unicode_len();
    if n < width {
        r.append(repeat_char(' ', width - n).as_str());
    }
    r
}

/// The texts `parts` with `sep` between each two of them.
pub open spec fn joined(parts: Seq<Seq<char>>, sep: Seq<char>) -> Seq<char>
    decreases parts.len(),
{
    if parts.len() == 0 {
        Seq::empty()
    } else if parts.len() == 1 {
        parts[0]
    } else {
        joined(parts.drop_last(), sep) + sep + parts.last()
    }
}

/// The texts `parts` with `sep` between each two of them.
pub fn join_texts(parts: &Vec<String>, sep: &str) -> (r: String)
    ensures
        r@ == joined(texts(parts@), sep@),
{
    let mut r = String::new();
    let mut i: usize = 0;
    assert(texts(parts@).take(0) == Seq::<Seq<char>>::empty());
    while i < parts.len()
        invariant
            i <= parts@.len(),
            r@ == joined(texts(parts@).take(i as int), sep@),
        decreases parts@.len() - i,
    {
        proof {
            assert(texts(parts@).take(i + 1).drop_last() == texts(parts@).take(i as int));
            assert(texts(parts@).take(i + 1).last() == parts@[i as int]@);
        }
        if i > 0 {
            r.append(sep);
        }
        r.append(parts[i].as_str());
        assert(i == 0 ==> r@ == parts@[0]@);
        i += 1;
    }
    assert(texts(parts@).take(parts@.len() as int) == texts(parts@));
    r
}

/// A text holds another exactly when it is made of something, the other, and something more.
pub proof fn law_found_text_stands_there(s: Seq<char>, p: Seq<char>)
    ensures
        has_text(s, p) <==> exists|a: Seq<char>, b: Seq<char>| s == #[trigger] (a + p + b),
{
    if has_text(s, p) {
        let at = choose|at: int| matches_at(s, p, at);
        let a = s.take(at);
        let b = s.skip(at + p.len());
        assert(s =~= a + p + b);
    }
    if exists|a: Seq<char>, b: Seq<char>| s == #[trigger] (a + p + b) {
        let (a, b) = choose|a: Seq<char>, b: Seq<char>| s == #[trigger] (a + p + b);
        assert(s.subrange(a.len() as int, (a.len() + p.len()) as int) =~= p);
        assert(matches_at(s, p, a.len() as int));
    }
}

/// A text begins with another exactly when it is made of the other and something more.
pub proof fn law_beginnings_stand_first(s: Seq<char>, p: Seq<char>)
    ensures
        begins_with(s, p) <==> exists|b: Seq<char>| s == #[trigger] (p + b),
{
    if begins_with(s, p) {
        assert(s =~= p + s.skip(p.len() as int));
    }
    if exists|b: Seq<char>| s == #[trigger] (p + b) {
        let b = choose|b: Seq<char>| s == #[trigger] (p + b);
        assert(s.subrange(0, p.len() as int) =~= p);
    }
}

proof fn lemma_found_at(s: Seq<char>, p: Seq<char>, n: int)
    requires
        0 <= n,
        matches_at(s, p, n),
        forall|at: int| 0 <= at < n ==> !#[trigger] matches_at(s, p, at),
    ensures
        find(s, p) == Some(n),
{
    lemma_find_from(s, p, 0);
}

proof fn lemma_no_match_before(before: Seq<char>, rest: Seq<char>, p: Seq<char>, at: int)
    requires
        p.len() > 0,
        0 <= at < before.len(),
        before[at] != p[0],
    ensures
        !matches_at(before + rest, p, at),
{
    let s = before + rest;
    if matches_at(s, p, at) {
        assert(s.subrange(at, at + p.len())[0] == s[at]);
    }
}

/// What is searched for is found where it stands first.
pub proof fn law_first_find(before: Seq<char>, p: Seq<char>, after: Seq<char>)
    requires
        p.len() > 0,
        forall|i: int| 0 <= i < before.len() ==> #[trigger] before[i] != p[0],
    ensures
        find(before + (p + after), p) == Some(before.len() as int),
{
    let rest = p + after;
    let s = before + rest;
    let n = before.len() as int;
    assert(s.subrange(n, n + p.len()) =~= p);
    assert forall|at: int| 0 <= at < n implies !#[trigger] matches_at(s, p, at) by {
        lemma_no_match_before(before, rest, p, at);
    }
    lemma_found_at(s, p, n);
}

/// Where a text does not hold another, nothing is found.
pub proof fn law_no_find(s: Seq<char>, p: Seq<char>)
    ensures
        find(s, p) is None <==> !has_text(s, p),
{
    lemma_find_from(s, p, 0);
}

proof fn lemma_drop_leading(s: Seq<char>, cs: Seq<char>)
    ensures
        ({
            let r = drop_leading(s, cs);
            let n = s.len() - r.len();
            &&& 0 <= n
            &&& r == s.skip(n)
            &&& forall|i: int| 0 <= i < n ==> cs.contains(#[trigger] s[i])
            &&& r.len() > 0 ==> !cs.contains(r[0])
        }),
    decreases s.len(),
{
    if s.len() > 0 && cs.contains(s[0]) {
        lemma_drop_leading(s.drop_first(), cs);
        let r = drop_leading(s, cs);
        let n = s.len() - r.len();
        assert(s.drop_first().skip(n - 1) =~= s.skip(n));
        assert forall|i: int| 0 <= i < n implies cs.contains(#[trigger] s[i]) by {
            if i > 0 {
                assert(s.drop_first()[i - 1] == s[i]);
            }
        }
    } else {
        assert(s.skip(0) =~= s);
    }
}

proof fn lemma_drop_trailing(s: Seq<char>, cs: Seq<char>)
    ensures
        ({
            let r = drop_trailing(s, cs);
            &&& r.len() <= s.len()
            &&& r == s.take(r.len() as int)
            &&& forall|i: int| r.len() <= i < s.len() ==> cs.contains(#[trigger] s[i])
            &&& r.len() > 0 ==> !cs.contains(r.last())
        }),
    decreases s.len(),
{
    if s.len() > 0 && cs.contains(s.last()) {
        lemma_drop_trailing(s.drop_last(), cs);
        let r = drop_trailing(s, cs);
        assert(s.drop_last().take(r.len() as int) =~= s.take(r.len() as int));
        assert forall|i: int| r.len() <= i < s.len() implies cs.contains(#[trigger] s[i]) by {
            if i < s.len() - 1 {
                assert(s.drop_last()[i] == s[i]);
            }
        }
    } else {
        assert(s.take(s.len() as int) =~= s);
    }
}

/// What is stripped off is all of the given kind, and what stays neither begins nor ends with that
/// kind.
pub proof fn law_stripping_takes_the_ends(s: Seq<char>, cs: Seq<char>)
    ensures
        exists|a: Seq<char>, b: Seq<char>|
            s == #[trigger] (a + strip(s, cs) + b) && (forall|i: int|
                0 <= i < a.len() ==> cs.contains(#[trigger] a[i])) && (forall|i: int|
                0 <= i < b.len() ==> cs.contains(#[trigger] b[i])),
        strip(s, cs).len() > 0 ==> !cs.contains(strip(s, cs)[0]) && !cs.contains(
            strip(s, cs).last(),
        ),
{
    lemma_drop_leading(s, cs);
    let m = drop_leading(s, cs);
    lemma_drop_trailing(m, cs);
    let r = strip(s, cs);
    let a = s.take(s.len() - m.len());
    let b = m.skip(r.len() as int);
    assert(s =~= a + r + b);
    assert forall|i: int| 0 <= i < a.len() implies cs.contains(#[trigger] a[i]) by {
        assert(a[i] == s[i]);
    }
    assert forall|i: int| 0 <= i < b.len() implies cs.contains(#[trigger] b[i]) by {
        assert(b[i] == m[r.len() + i]);
    }
}

/// Pieces with the separator between them are the text that was split, and none of them holds the
/// separator.
pub proof fn law_split_pieces_join_again(s: Seq<char>, sep: char)
    ensures
        joined(split_on(s, seq![sep]), seq![sep]) == s,
        forall|i: int|
            0 <= i < split_on(s, seq![sep]).len() ==> !(#[trigger] split_on(
                s,
                seq![sep],
            )[i]).contains(sep),
    decreases s.len(),
{
    let seps = seq![sep];
    assert(seps[0] == sep);
    assert(seps.contains(sep));
    if s.len() == 0 {
        assert(split_on(s, seps)[0] =~= Seq::empty());
        assert(joined(split_on(s, seps), seps) =~= s);
    } else {
        law_split_pieces_join_again(s.drop_last(), sep);
        lemma_split_nonempty(s.drop_last(), seps);
        let before = split_on(s.drop_last(), seps);
        let after = split_on(s, seps);
        assert(s =~= s.drop_last().push(s.last()));
        if s.last() == sep {
            assert(after.drop_last() =~= before);
            assert(joined(after, seps) =~= s);
        } else {
            assert(!seps.contains(s.last()));
            assert(after.drop_last() =~= before.drop_last());
            assert(joined(after, seps) =~= s);
        }
        assert forall|i: int| 0 <= i < after.len() implies !(#[trigger] after[i]).contains(sep) by {
            if i < before.len() {
                assert(!before[i].contains(sep));
            }
            if after[i].contains(sep) {
                let k = choose|k: int| 0 <= k < after[i].len() && after[i][k] == sep;
                if i < before.len() && k < before[i].len() {
                    assert(before[i][k] == sep);
                }
            }
        }
    }
}

/// A text without white space is its own only word; a space ends one word and begins the next.
pub proof fn law_words_stand_between_spaces(s: Seq<char>, space: char, word: Seq<char>)
    requires
        space_chars().contains(space),
        word.len() > 0,
        forall|i: int| 0 <= i < word.len() ==> !space_chars().contains(#[trigger] word[i]),
    ensures
        words(word) == seq![word],
        words(s + seq![space] + word) == words(s).push(word),
        words(s.push(space)) == words(s),
        words(Seq::empty()) == Seq::<Seq<char>>::empty(),
{
    reveal(Seq::filter);
    let cs = space_chars();
    lemma_split_one(word, cs);
    lemma_split_append(s, space, word, cs);
    lemma_split_append(s, space, Seq::empty(), cs);
    assert(s + seq![space] + Seq::<char>::empty() =~= s.push(space));
    let before = split_on(s, cs);
    assert(before.push(word).drop_last() =~= before);
    assert(before.push(Seq::empty()).drop_last() =~= before);
    assert(seq![word].drop_last() =~= Seq::empty());
    assert(words(word) =~= seq![word]);
    assert(words(s + seq![space] + word) =~= words(s).push(word));
    let none: Seq<char> = Seq::empty();
    lemma_split_one(none, cs);
    assert(seq![none].drop_last() =~= Seq::empty());
}

/// A number is written with digits alone and without zeros in front.
pub proof fn law_decimal_has_no_leading_zero(n: nat)
    requires
        n > 0,
    ensures
        decimal(n)[0] != '0',
        is_digit(decimal(n)[0]),
    decreases n,
{
    if n >= 10 {
        law_decimal_has_no_leading_zero(n / 10);
        law_decimal_round_trip(n / 10);
    }
}

/// Two digits write the same number, and are two as long as the number allows it.
pub proof fn law_two_digits_write_the_number(n: nat)
    ensures
        all_digits(two_digits(n)),
        digits_value(two_digits(n)) == n,
        n < 100 ==> two_digits(n).len() == 2,
        n >= 100 ==> two_digits(n) == decimal(n),
{
    law_decimal_round_trip(n);
    if n < 10 {
        let t = two_digits(n);
        assert(t.len() == 2);
        assert(t.drop_last() =~= seq!['0']);
        assert(seq!['0'].drop_last() =~= Seq::<char>::empty());
        reveal_with_fuel(digits_value, 3);
        assert(t[0] == '0' && t[1] == digit_char(n as int));
    } else if n < 100 {
        assert(decimal(n / 10).len() == 1);
    }
}

/// Digits are read as the number that they write, with or without a sign before them; anything else
/// is no number.
pub proof fn law_numbers_are_read(s: Seq<char>, max: nat)
    ensures
        s.len() > 0 && all_digits(s) ==> parse_number(s) == Some(digits_value(s)) && parse_number(
            seq!['+'] + s,
        ) == Some(digits_value(s)),
        forall|i: int|
            0 <= i < s.len() && !is_digit(#[trigger] s[i]) && (i > 0 || s[i] != '+')
                ==> parse_number(s) is None,
        s.len() == 0 ==> parse_number(s) is None && parse_number(seq!['+'] + s) is None,
        parse_up_to(s, max) == (if parse_number(s) is Some && parse_number(s)->0 <= max {
            parse_number(s)
        } else {
            None
        }),
{
    let signed = seq!['+'] + s;
    assert(signed.drop_first() =~= s);
    if s.len() > 0 && all_digits(s) {
        assert(is_digit(s[0]));
    }
    assert forall|i: int|
        0 <= i < s.len() && !is_digit(#[trigger] s[i]) && (i > 0 || s[i] != '+') implies parse_number(
        s,
    ) is None by {
        if s[0] == '+' {
            assert(s.drop_first()[i - 1] == s[i]);
        }
    }
}

/// A digit more at the end multiplies by ten and adds the digit; a zero in front changes nothing.
pub proof fn law_places_count_tenfold(s: Seq<char>, d: int)
    requires
        0 <= d < 10,
    ensures
        digits_value(s.push(digit_char(d))) == 10 * digits_value(s) + d,
        digits_value(seq!['0'] + s) == digits_value(s),
    decreases s.len(),
{
    assert(s.push(digit_char(d)).drop_last() =~= s);
    if s.len() == 0 {
        assert((seq!['0'] + s).drop_last() =~= s);
        assert((seq!['0'] + s).last() == '0');
    } else {
        law_places_count_tenfold(s.drop_last(), d);
        assert((seq!['0'] + s).drop_last() =~= seq!['0'] + s.drop_last());
        assert((seq!['0'] + s).last() == s.last());
    }
}

/// Padding keeps the text, adds nothing but spaces, and brings it to the width where it is shorter.
pub proof fn law_padding_adds_spaces(s: Seq<char>, width: nat)
    ensures
        padded(s, width).len() == if s.len() < width {
            width
        } else {
            s.len()
        },
        padded(s, width).take(s.len() as int) == s,
        forall|i: int| s.len() <= i < padded(s, width).len() ==> #[trigger] padded(s, width)[i] == ' ',
{
    assert(padded(s, width).take(s.len() as int) =~= s);
}

/// One text more is joined with one separator before it; one text alone stands for itself.
pub proof fn law_joining_puts_separators_between(parts: Seq<Seq<char>>, last: Seq<char>, sep: Seq<char>)
    ensures
        parts.len() > 0 ==> joined(parts.push(last), sep) == joined(parts, sep) + sep + last,
        joined(seq![last], sep) == last,
        joined(Seq::empty(), sep) == Seq::<char>::empty(),
{
    assert(parts.push(last).drop_last() =~= parts);
}

/// What is looked for stands behind a text that holds not even its first letter.
pub proof fn lemma_text_after(before: Seq<char>, s: Seq<char>, p: Seq<char>)
    requires
        p.len() > 0,
        forall|i: int| 0 <= i < before.len() ==> before[i] != p[0],
    ensures
        has_text(before + s, p) <==> has_text(s, p),
{
    let whole = before + s;
    let n = before.len() as int;
    if has_text(s, p) {
        let at = choose|at: int| matches_at(s, p, at);
        assert(whole.subrange(n + at, n + at + p.len()) =~= s.subrange(at, at + p.len()));
        assert(matches_at(whole, p, n + at));
    }
    if has_text(whole, p) {
        let at = choose|at: int| matches_at(whole, p, at);
        assert(whole.subrange(at, at + p.len())[0] == whole[at]);
        assert(at >= n);
        assert(s.subrange(at - n, at - n + p.len()) =~= whole.subrange(at, at + p.len()));
        assert(matches_at(s, p, at - n));
    }
}

/// Nothing is taken off a text that neither begins nor ends with what is stripped.
pub proof fn lemma_nothing_to_strip(s: Seq<char>, cs: Seq<char>)
    requires
        s.len() > 0,
        !cs.contains(s[0]),
        !cs.contains(s.last()),
    ensures
        strip(s, cs) == s,
{
}

/// A character that is put around a text is stripped off again.
pub proof fn lemma_strip_one(s: Seq<char>, c: char)
    requires
        s.len() > 0,
        s[0] != c,
        s.last() != c,
    ensures
        strip(seq![c] + s + seq![c], seq![c]) == s,
{
    let cs = seq![c];
    assert(cs[0] == c);
    let whole = cs + s + cs;
    assert(whole[0] == c);
    assert(whole.drop_first() =~= s + cs);
    assert((s + cs)[0] == s[0]);
    assert(drop_leading(s + cs, cs) == s + cs);
    assert(drop_leading(whole, cs) == s + cs);
    assert((s + cs).last() == c);
    assert((s + cs).drop_last() =~= s);
    assert(drop_trailing(s, cs) == s);
}

/// White space is what Unicode calls so.
pub proof fn law_white_space_is_known(c: char)
    ensures
        space_chars().contains(c) <==> {
            let n = c as int;
            ||| 9 <= n <= 13
            ||| n == 32
            ||| n == 0x85
            ||| n == 0xa0
            ||| n == 0x1680
            ||| 0x2000 <= n <= 0x200a
            ||| n == 0x2028
            ||| n == 0x2029
            ||| n == 0x202f
            ||| n == 0x205f
            ||| n == 0x3000
        },
{
    let s = space_chars();
    assert(s.len() == 25);
    assert(s[0] as int == 9 && s[1] as int == 10 && s[2] as int == 11 && s[3] as int == 12 && s[4]
        as int == 13 && s[5] as int == 32 && s[6] as int == 0x85 && s[7] as int == 0xa0 && s[8]
        as int == 0x1680);
    assert(s[9] as int == 0x2000 && s[10] as int == 0x2001 && s[11] as int == 0x2002 && s[12]
        as int == 0x2003 && s[13] as int == 0x2004 && s[14] as int == 0x2005 && s[15] as int
        == 0x2006 && s[16] as int == 0x2007 && s[17] as int == 0x2008 && s[18] as int == 0x2009
        && s[19] as int == 0x200a);
    assert(s[20] as int == 0x2028 && s[21] as int == 0x2029 && s[22] as int == 0x202f && s[23]
        as int == 0x205f && s[24] as int == 0x3000);
}

} // verus!
