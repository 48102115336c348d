//! The in-memory picture of a directory hierarchy and the counting rule that
//! decides which entries of a directory are rendered.

use vstd::prelude::*;

verus! {

/// One entry of a directory listing, with the subtree below it if it is a
/// directory. Files carry no children; the renderer never descends into a
/// node whose `is_dir` is false.
pub struct Node {
    pub name: String,
    pub is_dir: bool,
    pub children: Vec<Node>,
}

/// Whether an entry is rendered: directories always, files only when
/// `show_files` is set.
pub open spec fn qualifies(n: Node, show_files: bool) -> bool {
    n.is_dir || show_files
}

/// How many entries of a listing qualify for rendering.
pub open spec fn count_qualifying_spec(s: Seq<Node>, show_files: bool) -> nat
    decreases s.len(),
{
    if s.len() == 0 {
        0
    } else {
        count_qualifying_spec(s.drop_last(), show_files) + if qualifies(s.last(), show_files) {
            1nat
        } else {
            0nat
        }
    }
}

/// No listing has more qualifying entries than entries.
pub proof fn lemma_count_qualifying_le_len(s: Seq<Node>, show_files: bool)
    ensures
        count_qualifying_spec(s, show_files) <= s.len(),
    decreases s.len(),
{
    if s.len() > 0 {
        lemma_count_qualifying_le_len(s.drop_last(), show_files);
    }
}

/// Counting a prefix one entry longer adds exactly that entry's contribution.
pub proof fn lemma_count_qualifying_take_step(s: Seq<Node>, i: int, show_files: bool)
    requires
        0 <= i < s.len(),
    ensures
        count_qualifying_spec(s.take(i + 1), show_files) == count_qualifying_spec(
            s.take(i),
            show_files,
        ) + if qualifies(s[i], show_files) {
            1nat
        } else {
            0nat
        },
{
    assert(s.take(i + 1).drop_last() =~= s.take(i));
    assert(s.take(i + 1).last() == s[i]);
}

/// A prefix never has more qualifying entries than the whole listing.
pub proof fn lemma_count_qualifying_take_le(s: Seq<Node>, i: int, show_files: bool)
    requires
        0 <= i <= s.len(),
    ensures
        count_qualifying_spec(s.take(i), show_files) <= count_qualifying_spec(s, show_files),
    decreases s.len() - i,
{
    if i == s.len() {
        assert(s.take(i) =~= s);
    } else {
        lemma_count_qualifying_take_step(s, i, show_files);
        lemma_count_qualifying_take_le(s, i + 1, show_files);
    }
}

/// The height of one node: itself plus whatever hangs below it.
pub open spec fn node_height(n: Node) -> nat
    decreases n, 0int,
{
    1 + forest_height(n.children@)
}

/// The height of a listing: that of its tallest entry, zero when empty.
pub open spec fn forest_height(s: Seq<Node>) -> nat
    decreases s, 1int,
{
    if s.len() == 0 {
        0
    } else if node_height(s[0]) >= forest_height(s.drop_first()) {
        node_height(s[0])
    } else {
        forest_height(s.drop_first())
    }
}

/// Every entry of a listing fits under the listing's height.
pub proof fn lemma_node_height_le_forest(s: Seq<Node>, i: int)
    requires
        0 <= i < s.len(),
    ensures
        node_height(s[i]) <= forest_height(s),
    decreases s.len(),
{
    if i > 0 {
        lemma_node_height_le_forest(s.drop_first(), i - 1);
        assert(s.drop_first()[i - 1] == s[i]);
    }
}

/// How many entries of a listing qualify for rendering: all of them when
/// `show_files` is set, only the directories otherwise.
pub fn count_qualifying(children: &Vec<Node>, show_files: bool) -> (n: usize)
    ensures
        n == count_qualifying_spec(children@, show_files),
{
    let mut n: usize = 0;
    let mut i: usize = 0;
    while i < children.len()
        invariant
            0 <= i <= children@.len(),
            n == count_qualifying_spec(children@.take(i as int), show_files),
        decreases children@.len() - i,
    {
        proof {
            lemma_count_qualifying_take_step(children@, i as int, show_files);
            lemma_count_qualifying_take_le(children@, i + 1, show_files);
            lemma_count_qualifying_le_len(children@, show_files);
        }
        if children[i].is_dir || show_files {
            n = n + 1;
        }
        i = i + 1;
    }
    proof {
        assert(children@.take(children@.len() as int) =~= children@);
    }
    n
}

} // verus!
