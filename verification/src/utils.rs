//! Small helpers shared by the command line, the daemon and the terminal interface.

use vstd::prelude::*;

use crate::text;

verus! {

/// What follows the last `/` of `url`, or `downloaded_file` where nothing does.
pub open spec fn filename(url: Seq<char>) -> Seq<char> {
    let last = text::split_on(url, seq!['/']).last();
    if last.len() > 0 {
        last
    } else {
        "downloaded_file"@
    }
}

/// Extract filename from a URL's path segment.
pub fn filename_from_url(url: &str) -> (name: String)
    ensures
        name@ == filename(url@),
{
    let seps: Vec<char> = vec!['/'];
    assert(seps@ =~= seq!['/']);
    let pieces = text::split_text(url, &seps);
    proof {
        text::lemma_split_nonempty(url@, seps@);
        assert(text::texts(pieces@).len() == pieces@.len());
    }
    let last: &String = &pieces[pieces.len() - 1];
    assert(last@ == text::texts(pieces@).last());
    if last.as_str().is_empty() {
        text::copy_text("downloaded_file")
    } else {
        last.clone()
    }
}

/// No piece of a split holds a separator.
proof fn lemma_pieces_hold_no_separator(s: Seq<char>, seps: Seq<char>)
    ensures
        forall|i: int, c: char|
            0 <= i < text::split_on(s, seps).len() && seps.contains(c)
                ==> !(#[trigger] text::split_on(s, seps)[i].contains(c)),
    decreases s.len(),
{
    if s.len() > 0 {
        lemma_pieces_hold_no_separator(s.drop_last(), seps);
        text::lemma_split_nonempty(s.drop_last(), seps);
        let before = text::split_on(s.drop_last(), seps);
        let after = text::split_on(s, seps);
        assert forall|i: int, c: char|
            0 <= i < after.len() && seps.contains(c) implies !(#[trigger] after[i].contains(c)) by {
            if i < after.len() - 1 {
                assert(after[i] == before[i]);
                assert(!before[i].contains(c));
            } else if !seps.contains(s.last()) {
                assert(!before[i].contains(c));
                if after[i].contains(c) {
                    let k = choose|k: int| 0 <= k < after[i].len() && after[i][k] == c;
                    if k < before[i].len() {
                        assert(before[i][k] == c);
                        assert(before[i].contains(c));
                    }
                }
            }
        }
    }
}

/// The file name of a URL is never empty and never holds a `/`, so it always names an entry of
/// the directory it is joined to.
pub proof fn law_filename_is_one_component(url: Seq<char>)
    ensures
        filename(url).len() > 0,
        !filename(url).contains('/'),
{
    reveal_strlit("downloaded_file");
    text::lemma_split_nonempty(url, seq!['/']);
    lemma_pieces_hold_no_separator(url, seq!['/']);
    let pieces = text::split_on(url, seq!['/']);
    assert(seq!['/'].contains('/')) by {
        assert(seq!['/'][0] == '/');
    }
    assert(!pieces[pieces.len() - 1].contains('/'));
}

/// What follows the last `/` of a URL is its file name; where nothing follows, a default stands in.
pub proof fn law_filename_is_what_follows_the_last_slash(site: Seq<char>, name: Seq<char>)
    requires
        !name.contains('/'),
    ensures
        name.len() > 0 ==> filename(site + seq!['/'] + name) == name,
        name.len() > 0 ==> filename(name) == name,
        name.len() == 0 ==> filename(site + seq!['/'] + name) == "downloaded_file"@,
        filename(Seq::empty()) == "downloaded_file"@,
{
    let seps = seq!['/'];
    assert(seps[0] == '/');
    assert(seps.contains('/'));
    assert forall|i: int| 0 <= i < name.len() implies !seps.contains(#[trigger] name[i]) by {
        assert(name.contains(name[i]));
    }
    text::lemma_split_append(site, '/', name, seps);
    text::lemma_split_one(name, seps);
    text::lemma_split_one(Seq::empty(), seps);
}

} // verus!
