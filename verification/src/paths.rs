//! Unix file paths, held as text.

use vstd::prelude::*;
use vstd::string::*;

use crate::text;

verus! {

/// `path` seen from the directory `base`: an absolute `path` stands for itself.
pub open spec fn joined_path(base: Seq<char>, path: Seq<char>) -> Seq<char> {
    if path.len() > 0 && path[0] == '/' {
        path
    } else if base.len() == 0 || base.last() == '/' {
        base + path
    } else {
        base.push('/') + path
    }
}

/// `path` seen from the directory `base`.
pub fn join_path(base: &str, path: &str) -> (r: String)
    ensures
        r@ == joined_path(base@, path@),
{
    let b = text::chars_of(base);
    let p = text::chars_of(path);
    if p.len() > 0 && p[0] == '/' {
        return path.to_owned();
    }
    let mut r = base.to_owned();
    if b.len() > 0 && b[b.len() - 1] != '/' {
        r.push('/');
    }
    r.append(path);
    r
}

/// How many characters of `p` come before its components: the root `/`, or a leading `.`.
pub open spec fn body_start(p: Seq<char>) -> int {
    if p.len() > 0 && p[0] == '/' {
        1
    } else if p.len() > 0 && p[0] == '.' && (p.len() == 1 || p[1] == '/') {
        1
    } else {
        0
    }
}

/// Where the last component of `p` begins.
pub open spec fn last_start(p: Seq<char>) -> int {
    last_start_from(p, p.len() as int)
}

/// The position after the last `/` in `p[body_start(p)..to]`, or `body_start(p)` if there is none.
pub open spec fn last_start_from(p: Seq<char>, to: int) -> int
    decreases to,
{
    if to <= body_start(p) || p[to - 1] == '/' {
        if to < body_start(p) {
            body_start(p)
        } else {
            to
        }
    } else {
        last_start_from(p, to - 1)
    }
}

/// `p` without its last component and the `/` before it.
pub open spec fn without_last(p: Seq<char>) -> Seq<char> {
    let at = last_start(p);
    if at > body_start(p) {
        p.take(at - 1)
    } else {
        p.take(at)
    }
}

proof fn lemma_last_start(p: Seq<char>, to: int)
    requires
        body_start(p) <= to <= p.len(),
    ensures
        body_start(p) <= last_start_from(p, to) <= to,
        last_start_from(p, to) > body_start(p) ==> p[last_start_from(p, to) - 1] == '/',
        forall|k: int| last_start_from(p, to) <= k < to ==> p[k] != '/',
    decreases to,
{
    if to <= body_start(p) || p[to - 1] == '/' {
    } else {
        lemma_last_start(p, to - 1);
    }
}

/// `p` without the empty and `.` components at its end, which name the same entry.
pub open spec fn trimmed(p: Seq<char>) -> Seq<char>
    decreases p.len(),
{
    if p.len() <= body_start(p) {
        p
    } else {
        let c = p.skip(last_start(p));
        if (c.len() == 0 || c == seq!['.']) && without_last(p).len() < p.len() {
            trimmed(without_last(p))
        } else {
            p
        }
    }
}

/// The name of the entry that `p` leads to; none for the root, `.` and paths that end in `..`.
pub open spec fn file_name(p: Seq<char>) -> Option<Seq<char>> {
    let t = trimmed(p);
    if t.len() <= body_start(t) || t.skip(last_start(t)) == seq!['.', '.'] {
        None
    } else {
        Some(t.skip(last_start(t)))
    }
}

/// The directory of the entry that `p` leads to.
pub open spec fn parent(p: Seq<char>) -> Seq<char> {
    trimmed(without_last(trimmed(p)))
}

/// `p` with `name` as the name of the entry that it leads to.
pub open spec fn with_file_name(p: Seq<char>, name: Seq<char>) -> Seq<char> {
    if file_name(p) is Some {
        joined_path(parent(p), name)
    } else {
        joined_path(p, name)
    }
}

fn find_body_start(v: &Vec<char>, len: usize) -> (r: usize)
    requires
        len <= v@.len(),
    ensures
        r == body_start(v@.take(len as int)),
        r <= len,
{
    if len > 0 && v[0] == '/' {
        1
    } else if len > 0 && v[0] == '.' && (len == 1 || v[1] == '/') {
        1
    } else {
        0
    }
}

fn find_last_start(v: &Vec<char>, len: usize) -> (r: usize)
    requires
        len <= v@.len(),
        body_start(v@.take(len as int)) <= len,
    ensures
        r == last_start(v@.take(len as int)),
        body_start(v@.take(len as int)) <= r <= len,
{
    let start: usize = find_body_start(v, len);
    let ghost p = v@.take(len as int);
    proof {
        lemma_last_start(p, len as int);
    }
    let mut to: usize = len;
    while to > start && v[to - 1] != '/'
        invariant
            start == body_start(p),
            start <= to <= len <= v@.len(),
            p == v@.take(len as int),
            last_start_from(p, to as int) == last_start(p),
        decreases to,
    {
        assert(p[to - 1] == v@[to - 1]);
        to -= 1;
    }
    to
}

/// The length of `v[..len]` without its last component.
fn length_without_last(v: &Vec<char>, len: usize) -> (r: usize)
    requires
        len <= v@.len(),
        body_start(v@.take(len as int)) <= len,
    ensures
        r <= len,
        v@.take(r as int) == without_last(v@.take(len as int)),
{
    let at: usize = find_last_start(v, len);
    let ghost p = v@.take(len as int);
    if at > find_body_start(v, len) {
        assert(p.take(at - 1) == v@.take(at - 1));
        at - 1
    } else {
        assert(p.take(at as int) == v@.take(at as int));
        at
    }
}

/// The length of `v[..len]` once trimmed.
fn trimmed_length(v: &Vec<char>, len: usize) -> (r: usize)
    requires
        len <= v@.len(),
    ensures
        r <= len,
        v@.take(r as int) == trimmed(v@.take(len as int)),
{
    let mut n: usize = len;
    while n > find_body_start(v, n)
        invariant_except_break
            n <= len <= v@.len(),
            trimmed(v@.take(n as int)) == trimmed(v@.take(len as int)),
        ensures
            n <= len,
            v@.take(n as int) == trimmed(v@.take(len as int)),
        decreases n,
    {
        let at: usize = find_last_start(v, n);
        let shorter: usize = length_without_last(v, n);
        let ghost p = v@.take(n as int);
        let ghost c = p.skip(at as int);
        let dot: bool = n - at == 1 && v[at] == '.';
        proof {
            assert(c.len() == n - at);
            if dot {
                assert(c =~= seq!['.']);
            }
            if c == seq!['.'] {
                assert(c[0] == v@[at as int]);
            }
            assert(without_last(p).len() == shorter);
        }
        if !((at == n || dot) && shorter < n) {
            break;
        }
        n = shorter;
    }
    n
}

/// `path` with `suffix` after the name of the entry that it leads to.
pub fn append_to_file_name(path: &str, suffix: &str) -> (r: String)
    ensures
        r@ == with_file_name(path@, match file_name(path@) {
            Some(name) => name + suffix@,
            None => suffix@,
        }),
{
    let v = text::chars_of(path);
    let len: usize = trimmed_length(&v, v.len());
    assert(v@.take(v@.len() as int) == v@);
    let ghost t = v@.take(len as int);
    let start: usize = find_body_start(&v, len);
    if len <= start {
        return join_path(path, suffix);
    }
    let at: usize = find_last_start(&v, len);
    assert(t.skip(at as int) == v@.subrange(at as int, len as int));
    if len - at == 2 && v[at] == '.' && v[at + 1] == '.' {
        assert(t.skip(at as int) =~= seq!['.', '.']);
        return join_path(path, suffix);
    }
    proof {
        if t.skip(at as int) == seq!['.', '.'] {
            assert(t.skip(at as int)[0] == v@[at as int]);
            assert(t.skip(at as int)[1] == v@[at + 1]);
        }
    }
    let dir_len: usize = trimmed_length(&v, length_without_last(&v, len));
    let dir = text::string_of_range(&v, 0, dir_len);
    assert(v@.subrange(0, dir_len as int) == v@.take(dir_len as int));
    let mut name = text::string_of_range(&v, at, len);
    name.append(suffix);
    join_path(dir.as_str(), name.as_str())
}

/// An ordinary name: one component that is neither empty, `.` nor `..`.
pub open spec fn plain_name(name: Seq<char>) -> bool {
    &&& name.len() > 0
    &&& !name.contains('/')
    &&& name != seq!['.']
    &&& name != seq!['.', '.']
}

/// An entry named `name` in the directory `dir` has that name and, for a `dir` without trailing
/// separators, that directory.
pub proof fn law_entry_of_directory(dir: Seq<char>, name: Seq<char>)
    requires
        plain_name(name),
        trimmed(dir) == dir,
    ensures
        file_name(joined_path(dir, name)) == Some(name),
        parent(joined_path(dir, name)) == dir,
{
    let p = joined_path(dir, name);
    assert forall|k: int| 0 <= k < name.len() implies name[k] != '/' by {
        assert(name.contains(name[k]));
    }
    let start = body_start(p);
    assert(name[0] != '/');
    let sep = dir.len() > 0 && dir.last() != '/';
    let at: int = if sep { dir.len() as int + 1 } else { dir.len() as int };
    assert(p.len() == at + name.len());
    assert forall|k: int| at <= k < p.len() implies p[k] != '/' && p[k] == name[k - at] by {}
    if dir.len() > 0 && dir.last() == '/' && dir.len() > body_start(dir) {
        lemma_last_start(dir, dir.len() as int);
        assert(last_start(dir) == dir.len());
        assert(dir.skip(last_start(dir)).len() == 0);
        assert(without_last(dir).len() < dir.len());
        assert(trimmed(dir) == trimmed(without_last(dir)));
        lemma_trimmed_shrinks(without_last(dir));
        assert(false);
    }
    if dir.len() == 0 {
        if start == 1 {
            assert(p == name);
            if name.len() == 1 {
                assert(name =~= seq!['.']);
            }
            assert(false);
        }
    }
    assert(start <= at);
    lemma_last_start(p, p.len() as int);
    if at > start {
        assert(p[at - 1] == '/');
    }
    assert(last_start(p) == at) by {
        let l = last_start(p);
        if l > at {
            assert(p[l - 1] == '/');
        }
        if l < at {
            assert(at - 1 >= l);
            assert(p[at - 1] == '/');
        }
    }
    assert(p.skip(at) =~= name);
    assert(trimmed(p) == p);
    assert(without_last(p) =~= dir);
}

proof fn lemma_trimmed_shrinks(p: Seq<char>)
    ensures
        trimmed(p).len() <= p.len(),
    decreases p.len(),
{
    if p.len() > body_start(p) {
        let c = p.skip(last_start(p));
        if (c.len() == 0 || c == seq!['.']) && without_last(p).len() < p.len() {
            lemma_trimmed_shrinks(without_last(p));
        }
    }
}

/// A relative path is set behind its directory, with one `/` between them where the directory does
/// not end in one; an absolute path stands for itself.
pub proof fn law_joined_paths(base: Seq<char>, path: Seq<char>)
    ensures
        path.len() > 0 && path[0] == '/' ==> joined_path(base, path) == path,
        !(path.len() > 0 && path[0] == '/') ==> exists|slash: Seq<char>|
            joined_path(base, path) == #[trigger] (base + slash + path) && (if base.len() == 0
                || base.last() == '/' {
                slash.len() == 0
            } else {
                slash == seq!['/']
            }),
{
    if !(path.len() > 0 && path[0] == '/') {
        if base.len() == 0 || base.last() == '/' {
            assert(joined_path(base, path) =~= base + Seq::<char>::empty() + path);
        } else {
            assert(joined_path(base, path) =~= base + seq!['/'] + path);
        }
    }
}

proof fn lemma_last_start_is(p: Seq<char>, at: int)
    requires
        body_start(p) < at <= p.len(),
        p[at - 1] == '/',
        forall|k: int| at <= k < p.len() ==> p[k] != '/',
    ensures
        last_start(p) == at,
{
    lemma_last_start(p, p.len() as int);
    let l = last_start(p);
    if l > at {
        assert(p[l - 1] == '/');
    } else if l < at {
        assert(p[at - 1] != '/');
    }
}

/// A separator or a dot behind a path leads to the same entry.
pub proof fn law_trailing_separators_do_not_matter(p: Seq<char>)
    requires
        p.len() > 0,
    ensures
        file_name(p.push('/')) == file_name(p),
        parent(p.push('/')) == parent(p),
        file_name(p.push('/').push('.')) == file_name(p),
        parent(p.push('/').push('.')) == parent(p),
{
    let n = p.len() as int;
    let a = p.push('/');
    lemma_last_start_is(a, n + 1);
    assert(a.skip(n + 1).len() == 0);
    assert(a.take(n) =~= p);
    assert(trimmed(a) == trimmed(p));
    let b = a.push('.');
    lemma_last_start_is(b, n + 1);
    assert(b.skip(n + 1) =~= seq!['.']);
    assert(b.take(n) =~= p);
    assert(trimmed(b) == trimmed(p));
}

/// Another name for an entry of a directory is an entry of the same directory under that name.
pub proof fn law_other_names_stay_in_the_directory(
    dir: Seq<char>,
    name: Seq<char>,
    other: Seq<char>,
)
    requires
        plain_name(name),
        trimmed(dir) == dir,
    ensures
        with_file_name(joined_path(dir, name), other) == joined_path(dir, other),
{
    law_entry_of_directory(dir, name);
}

/// A path that ends in two dots has no name, so that another name is put behind it.
pub proof fn law_two_dots_are_no_name(p: Seq<char>, other: Seq<char>)
    requires
        p.len() > 0,
    ensures
        file_name(p + seq!['/', '.', '.']) is None,
        with_file_name(p + seq!['/', '.', '.'], other) == joined_path(
            p + seq!['/', '.', '.'],
            other,
        ),
{
    let n = p.len() as int;
    let a = p + seq!['/', '.', '.'];
    assert(a[n] == '/' && a[n + 1] == '.' && a[n + 2] == '.');
    lemma_last_start_is(a, n + 1);
    assert(a.skip(n + 1) =~= seq!['.', '.']);
    assert(seq!['.', '.'].len() == 2 && seq!['.'].len() == 1);
    assert(trimmed(a) == a);
}

} // verus!
