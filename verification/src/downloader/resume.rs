//! Resume state: which chunks of a partial download are on disk, across pauses and restarts.

use std::collections::HashSet;

use vstd::prelude::*;
use vstd::string::*;

use crate::paths;

verus! {

broadcast use vstd::std_specs::hash::group_hash_axioms;

/// What a `PartState` holds.
pub struct PartView {
    pub url: Seq<char>,
    pub total_size: u64,
    pub num_chunks: u8,
    pub completed_chunks: Set<usize>,
}

impl PartView {
    /// Whether chunk `i` still has to be fetched.
    pub open spec fn is_pending(self, i: int) -> bool {
        0 <= i < self.num_chunks && !self.completed_chunks.contains(i as usize)
    }

    /// The chunks among the first `n` that still have to be fetched, in ascending order.
    pub open spec fn pending_below(self, n: nat) -> Seq<usize>
        decreases n,
    {
        if n == 0 {
            Seq::empty()
        } else {
            let before = self.pending_below((n - 1) as nat);
            if self.completed_chunks.contains((n - 1) as usize) {
                before
            } else {
                before.push((n - 1) as usize)
            }
        }
    }

    /// The chunks that still have to be fetched, in ascending order.
    pub open spec fn pending(self) -> Seq<usize> {
        self.pending_below(self.num_chunks as nat)
    }
}

/// Persisted state for a partial download.
#[derive(Debug)]
pub struct PartState {
    pub url: String,
    pub total_size: u64,
    pub num_chunks: u8,
    /// Indices of chunks already fully written to disk.
    pub completed_chunks: HashSet<usize>,
}

impl View for PartState {
    type V = PartView;

    open spec fn view(&self) -> PartView {
        PartView {
            url: self.url@,
            total_size: self.total_size,
            num_chunks: self.num_chunks,
            completed_chunks: self.completed_chunks@,
        }
    }
}

/// The state of a download of which nothing is on disk yet.
pub open spec fn fresh(url: Seq<char>, total_size: u64, num_chunks: u8) -> PartView {
    PartView { url, total_size, num_chunks, completed_chunks: Set::empty() }
}

impl PartState {
    /// The state of a download of which nothing is on disk yet.
    pub fn new(url: &str, total_size: u64, num_chunks: u8) -> (r: PartState)
        ensures
            r@ == fresh(url@, total_size, num_chunks),
    {
        PartState { url: url.to_owned(), total_size, num_chunks, completed_chunks: HashSet::new() }
    }

    /// Records that chunk `index` is fully written to disk.
    pub fn mark_done(&mut self, index: usize)
        ensures
            final(self)@ == (PartView {
                completed_chunks: old(self)@.completed_chunks.insert(index),
                ..old(self)@
            }),
    {
        self.completed_chunks.insert(index);
    }

    /// The chunks that still have to be fetched, in ascending order.
    pub fn pending_indices(&self) -> (r: Vec<usize>)
        ensures
            r@ == self@.pending(),
    {
        let mut r: Vec<usize> = Vec::new();
        let n: usize = self.num_chunks as usize;
        let mut i: usize = 0;
        while i < n
            invariant
                n == self.num_chunks,
                i <= n,
                r@ == self@.pending_below(i as nat),
            decreases n - i,
        {
            if !self.completed_chunks.contains(&i) {
                r.push(i);
            }
            i += 1;
        }
        r
    }

    /// How many chunks are fully written to disk.
    pub fn chunks_done(&self) -> (r: u8)
        ensures
            r == self@.num_chunks - self@.pending().len(),
    {
        proof {
            law_pending_lists_what_is_missing(self@);
        }
        let pending: usize = self.pending_indices().len();
        self.num_chunks - pending as u8
    }

    /// A copy of the state, for writing to disk while fetching goes on.
    pub fn snapshot(&self) -> (r: PartState)
        ensures
            r@ == self@,
    {
        let mut completed_chunks: HashSet<usize> = HashSet::new();
        let ghost mut copied = Seq::<usize>::empty();
        for index in it: self.completed_chunks.iter()
            invariant
                it.seq().unref().to_set() == self.completed_chunks@,
                copied == it.seq().unref().take(it.index() as int),
                it.index() == it.seq().len() ==> copied == it.seq().unref(),
                forall|x: usize| completed_chunks@.contains(x) <==> #[trigger] copied.contains(x),
        {
            completed_chunks.insert(*index);
            proof {
                let before = copied;
                let last = *index;
                copied = before.push(last);
                assert forall|x: usize| #[trigger]
                    copied.contains(x) <==> before.contains(x) || x == last by {
                    if before.contains(x) {
                        let j = choose|j: int| 0 <= j < before.len() && before[j] == x;
                        assert(copied[j] == x);
                    }
                    assert(copied[before.len() as int] == last);
                }
            }
        }
        assert(copied.to_set() == self.completed_chunks@);
        assert(completed_chunks@ =~= self.completed_chunks@) by {
            assert forall|x: usize| completed_chunks@.contains(x)
                == self.completed_chunks@.contains(x) by {
                assert(copied.to_set().contains(x) == copied.contains(x));
            }
        }
        PartState {
            url: self.url.clone(),
            total_size: self.total_size,
            num_chunks: self.num_chunks,
            completed_chunks,
        }
    }
}

/// `.part` file lives alongside the output file: `file.zip` -> `file.zip.part`
pub open spec fn part_file(output_path: Seq<char>) -> Seq<char> {
    match paths::file_name(output_path) {
        Some(name) => paths::joined_path(paths::parent(output_path), name + ".part"@),
        None => paths::joined_path(output_path, ".part"@),
    }
}

/// `.part` file lives alongside the output file: `file.zip` -> `file.zip.part`
pub fn part_path(output_path: &str) -> (r: String)
    ensures
        r@ == part_file(output_path@),
{
    paths::append_to_file_name(output_path, ".part")
}

/// The state file of an ordinary file stands in the same directory, under the name of the file
/// with `.part` after it.
pub proof fn law_part_file_lives_alongside(dir: Seq<char>, name: Seq<char>)
    requires
        paths::plain_name(name),
        paths::trimmed(dir) == dir,
    ensures
        part_file(paths::joined_path(dir, name)) == paths::joined_path(dir, name + ".part"@),
        part_file(paths::joined_path(dir, name)) == paths::joined_path(dir, name) + ".part"@,
{
    paths::law_entry_of_directory(dir, name);
    assert(name[0] != '/') by {
        assert(name.contains(name[0]));
    }
    assert(paths::joined_path(dir, name + ".part"@) =~= paths::joined_path(dir, name) + ".part"@);
}

/// `pending_below` lists exactly the chunks that still have to be fetched, each once, ascending.
pub proof fn lemma_pending_below(part: PartView, n: nat)
    requires
        n <= 256,
    ensures
        forall|i: int|
            0 <= i < part.pending_below(n).len() ==> (#[trigger] part.pending_below(n)[i]) < n
                && !part.completed_chunks.contains(part.pending_below(n)[i]),
        forall|k: usize|
            k < n && !part.completed_chunks.contains(k) ==> #[trigger] part.pending_below(
                n,
            ).contains(k),
        forall|i: int, j: int|
            0 <= i < j < part.pending_below(n).len() ==> #[trigger] part.pending_below(n)[i]
                < #[trigger] part.pending_below(n)[j],
        part.pending_below(n).len() <= n,
    decreases n,
{
    if n > 0 {
        let m = (n - 1) as nat;
        lemma_pending_below(part, m);
        let before = part.pending_below(m);
        let after = part.pending_below(n);
        assert forall|k: usize| k < n && !part.completed_chunks.contains(
            k,
        ) implies #[trigger] after.contains(k) by {
            if k == m {
                assert(after[after.len() - 1] == k);
            } else {
                assert(before.contains(k));
                let j = choose|j: int| 0 <= j < before.len() && before[j] == k;
                assert(after[j] == k);
            }
        }
    }
}

/// A chunk is pending exactly when it has not been marked done, and is listed once.
pub proof fn law_pending_lists_what_is_missing(part: PartView)
    ensures
        forall|k: usize| #[trigger] part.pending().contains(k) <==> part.is_pending(k as int),
        part.pending().no_duplicates(),
        part.pending().len() <= part.num_chunks,
{
    lemma_pending_below(part, part.num_chunks as nat);
    assert forall|k: usize| #[trigger] part.pending().contains(k) implies part.is_pending(
        k as int,
    ) by {
        let j = choose|j: int| 0 <= j < part.pending().len() && part.pending()[j] == k;
        assert(part.pending_below(part.num_chunks as nat)[j] == k);
    }
}

/// Marking a chunk done takes that chunk, and no other, off the pending list; marking it again
/// changes nothing, and the order in which chunks are marked does not matter.
pub proof fn law_mark_done(part: PartView, index: usize, other: usize)
    ensures
        ({
            let after = PartView {
                completed_chunks: part.completed_chunks.insert(index),
                ..part
            };
            &&& forall|k: int| #[trigger]
                after.is_pending(k) <==> part.is_pending(k) && k != index
            &&& PartView { completed_chunks: after.completed_chunks.insert(index), ..after }
                == after
            &&& after.completed_chunks.insert(other) == part.completed_chunks.insert(
                other,
            ).insert(index)
        }),
{
    let after = PartView { completed_chunks: part.completed_chunks.insert(index), ..part };
    assert(after.completed_chunks.insert(index) =~= after.completed_chunks);
    assert(after.completed_chunks.insert(other) =~= part.completed_chunks.insert(other).insert(
        index,
    ));
}

/// A download whose pending chunks have all been fetched has none left.
pub proof fn law_fetching_what_is_missing_completes(part: PartView)
    ensures
        (PartView {
            completed_chunks: part.completed_chunks.union(part.pending().to_set()),
            ..part
        }).pending().len() == 0,
{
    let after = PartView {
        completed_chunks: part.completed_chunks.union(part.pending().to_set()),
        ..part
    };
    law_pending_lists_what_is_missing(part);
    law_pending_lists_what_is_missing(after);
    if after.pending().len() > 0 {
        let k = after.pending()[0];
        assert(after.pending().contains(k));
        assert(after.is_pending(k as int));
        assert(part.pending().contains(k));
        assert(part.pending().to_set().contains(k));
    }
}

/// Where the output path has no name, the `.part` file lies in it.
pub proof fn law_part_file_without_a_name(p: Seq<char>)
    requires
        p.len() > 0,
    ensures
        part_file(p + seq!['/', '.', '.']) == p + seq!['/', '.', '.'] + "/.part"@,
{
    reveal_strlit(".part");
    reveal_strlit("/.part");
    let dots = p + seq!['/', '.', '.'];
    paths::law_two_dots_are_no_name(p, ".part"@);
    assert(dots.last() == '.');
    assert(".part"@[0] == '.');
    assert(paths::joined_path(dots, ".part"@) =~= dots + "/.part"@);
}

} // verus!
