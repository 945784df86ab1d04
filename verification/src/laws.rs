//! The engine's global guarantees, stated over the contracts that the
//! strategies in this crate ensure and proved once for every input tree.

use vstd::prelude::*;
use crate::order::{lemma_reorder_keeps_elements, lemma_sorted_unique, sorted_paths};
use crate::tree::{
    child_path, dedup, entry_paths, is_reachable, lemma_concat_to_set, lemma_dedup_from_no_duplicates,
    lemma_dedup_from_set, lemma_discovered_iff_reachable, lemma_preorder_split, preorder,
    preorder_from, preorder_upto, ChildEntry, NodeTree,
};

verus! {

/// Equivalence of the strategies: the sequential result, once sorted, is the
/// one collection that every concurrent strategy returns for the same tree.
/// `s` is what the sequential strategy ensures, `s_sorted` any sorted
/// rearrangement of it, and `c` anything a concurrent strategy's contract
/// allows: they coincide.
pub proof fn lemma_equivalence(
    root: Seq<char>,
    t: NodeTree,
    s: Seq<Seq<char>>,
    s_sorted: Seq<Seq<char>>,
    c: Seq<Seq<char>>,
)
    requires
        s == dedup(preorder(root, t)),
        s_sorted.to_multiset() == s.to_multiset(),
        sorted_paths(s_sorted),
        sorted_paths(c),
        c.no_duplicates(),
        c.to_set() == preorder(root, t).to_set(),
    ensures
        s_sorted == c,
        s.to_set() == c.to_set(),
{
    lemma_dedup_from_set(Seq::empty(), preorder(root, t));
    lemma_dedup_from_no_duplicates(Seq::empty(), preorder(root, t));
    assert(s.to_set() =~= preorder(root, t).to_set());
    lemma_reorder_keeps_elements(s, s_sorted);
    lemma_sorted_unique(s_sorted, c);
}

/// Idempotence: any two runs whose results meet a concurrent strategy's
/// contract against the same unchanged tree return identical collections;
/// thread count does not appear here at all.
pub proof fn lemma_idempotent(root: Seq<char>, t: NodeTree, a: Seq<Seq<char>>, b: Seq<Seq<char>>)
    requires
        sorted_paths(a),
        a.no_duplicates(),
        a.to_set() == preorder(root, t).to_set(),
        sorted_paths(b),
        b.no_duplicates(),
        b.to_set() == preorder(root, t).to_set(),
    ensures
        a == b,
{
    lemma_sorted_unique(a, b);
}

/// Uniqueness: the sequential result never holds a path twice.
pub proof fn lemma_sequential_unique(root: Seq<char>, t: NodeTree)
    ensures
        dedup(preorder(root, t)).no_duplicates(),
        dedup(preorder(root, t)).to_set() == preorder(root, t).to_set(),
{
    lemma_dedup_from_set(Seq::empty(), preorder(root, t));
    lemma_dedup_from_no_duplicates(Seq::empty(), preorder(root, t));
    assert(dedup(preorder(root, t)).to_set() =~= preorder(root, t).to_set());
}

/// Completeness: a collection holding exactly the discovered paths holds a
/// path precisely when a chain of successfully opened nodes from the root
/// leads to it.
pub proof fn lemma_completeness(root: Seq<char>, t: NodeTree, out: Seq<Seq<char>>, p: Seq<char>)
    requires
        out.to_set() == preorder(root, t).to_set(),
    ensures
        out.contains(p) <==> is_reachable(root, t, p),
{
    lemma_discovered_iff_reachable(root, t, p);
    assert(out.contains(p) <==> out.to_set().contains(p));
    assert(preorder(root, t).contains(p) <==> preorder(root, t).to_set().contains(p));
}

/// Resilience to partial failure: whatever other children of the node fail
/// to open or to enumerate, every path below a child that did open is still
/// discovered.
pub proof fn lemma_resilience(prefix: Seq<char>, t: NodeTree, j: int, p: Seq<char>)
    requires
        0 <= j < t.children@.len(),
        t.children@[j] is Open,
        is_reachable(
            child_path(prefix, t.children@[j]->Open_0@),
            t.children@[j]->Open_1,
            p,
        ),
    ensures
        preorder(prefix, t).contains(p),
{
    let name = t.children@[j]->Open_0;
    let sub = t.children@[j]->Open_1;
    lemma_discovered_iff_reachable(child_path(prefix, name@), sub, p);
    assert(entry_paths(prefix, t, j).contains(p));
    lemma_preorder_split(prefix, t, j);
    let k = choose|k: int| 0 <= k < entry_paths(prefix, t, j).len() && entry_paths(prefix, t, j)[k]
        == p;
    let shift = 1 + preorder_upto(prefix, t, j).len();
    assert(preorder(prefix, t) == seq![prefix] + (preorder_upto(prefix, t, j) + preorder_from(
        prefix,
        t,
        j,
    )));
    assert(preorder_from(prefix, t, j) == entry_paths(prefix, t, j) + preorder_from(prefix, t, j + 1));
    assert(preorder(prefix, t)[shift + k] == p);
}

} // verus!
