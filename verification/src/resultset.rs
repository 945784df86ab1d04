//! The result collection: an insertion-ordered set of paths, backed by
//! `indexmap::IndexSet`.

use vstd::prelude::*;
use indexmap::IndexSet;
use crate::order::{lemma_reorder_keeps_elements, sorted_paths};
use crate::tree::{
    dedup, dedup_from, lemma_dedup_from_concat, lemma_dedup_from_no_duplicates,
    lemma_dedup_from_set,
};

verus! {

#[verifier::external_type_specification]
#[verifier::external_body]
#[verifier::reject_recursive_types(T)]
#[verifier::reject_recursive_types(S)]
pub struct ExIndexSet<T, S>(IndexSet<T, S>);

/// The paths that the set holds, in insertion order.
pub uninterp spec fn set_paths(s: IndexSet<String>) -> Seq<Seq<char>>;

/// Relies on indexmap's IndexSet::new: creates an empty set.
#[verifier::external_body]
pub(crate) fn set_new() -> (s: IndexSet<String>)
    ensures
        set_paths(s) == Seq::<Seq<char>>::empty(),
{
    IndexSet::new()
}

/// Relies on indexmap's IndexSet::insert: appends the value unless an equal
/// one is present, keeping insertion order, and reports whether it was new.
#[verifier::external_body]
pub(crate) fn set_insert(s: &mut IndexSet<String>, v: String) -> (r: bool)
    ensures
        set_paths(*final(s)) == if set_paths(*old(s)).contains(v@) {
            set_paths(*old(s))
        } else {
            set_paths(*old(s)).push(v@)
        },
        r == !set_paths(*old(s)).contains(v@),
{
    s.insert(v)
}

/// Relies on indexmap's IndexSet::len: the number of values held.
#[verifier::external_body]
pub(crate) fn set_len(s: &IndexSet<String>) -> (r: usize)
    ensures
        r == set_paths(*s).len(),
{
    s.len()
}

/// Relies on indexmap's IndexSet::sort: reorders the values into the default
/// `String` order, which is lexicographic by scalar value, keeping them all.
#[verifier::external_body]
pub(crate) fn set_sort(s: &mut IndexSet<String>)
    ensures
        set_paths(*final(s)).to_multiset() == set_paths(*old(s)).to_multiset(),
        sorted_paths(set_paths(*final(s))),
{
    s.sort()
}

/// Relies on indexmap's IndexSet::iter: yields the values in order; the body
/// only copies them out.
#[verifier::external_body]
pub(crate) fn set_to_vec(s: &IndexSet<String>) -> (r: Vec<String>)
    ensures
        r@.map_values(|x: String| x@) == set_paths(*s),
{
    s.iter().cloned().collect()
}

/// Collects the values into an insertion-ordered set, dropping repeats.
pub(crate) fn collect_paths(v: &Vec<String>) -> (r: IndexSet<String>)
    ensures
        set_paths(r) == dedup(v@.map_values(|x: String| x@)),
{
    let ghost vs = v@.map_values(|x: String| x@);
    let mut out = set_new();
    proof {
        assert(vs.take(0) =~= Seq::<Seq<char>>::empty());
        assert(dedup_from(Seq::<Seq<char>>::empty(), vs.take(0))
            == Seq::<Seq<char>>::empty());
    }
    let mut i: usize = 0;
    while i < v.len()
        invariant
            i <= v.len(),
            vs == v@.map_values(|x: String| x@),
            set_paths(out) == dedup_from(Seq::<Seq<char>>::empty(), vs.take(i as int)),
        decreases v.len() - i,
    {
        let ghost before = set_paths(out);
        let s = v[i].clone();
        set_insert(&mut out, s);
        proof {
            let done = vs.take(i as int);
            lemma_dedup_from_concat(Seq::<Seq<char>>::empty(), done, seq![vs[i as int]]);
            assert(done + seq![vs[i as int]] =~= vs.take(i as int + 1));
            assert(seq![vs[i as int]].drop_first() =~= Seq::<Seq<char>>::empty());
            let a2 = if before.contains(vs[i as int]) {
                before
            } else {
                before.push(vs[i as int])
            };
            assert(dedup_from(a2, seq![vs[i as int]].drop_first()) == a2);
        }
        i = i + 1;
    }
    proof {
        assert(vs.take(v@.len() as int) =~= vs);
    }
    out
}

/// Collects the values into a set and sorts it: the normal form in which a
/// concurrent strategy returns its result.
pub(crate) fn sorted_set_from(v: &Vec<String>) -> (r: IndexSet<String>)
    ensures
        sorted_paths(set_paths(r)),
        set_paths(r).no_duplicates(),
        set_paths(r).to_set() == v@.map_values(|x: String| x@).to_set(),
{
    let ghost vs = v@.map_values(|x: String| x@);
    let mut out = collect_paths(v);
    let ghost pre = set_paths(out);
    proof {
        lemma_dedup_from_set(Seq::<Seq<char>>::empty(), vs);
        lemma_dedup_from_no_duplicates(Seq::<Seq<char>>::empty(), vs);
        assert(pre.to_set() =~= vs.to_set());
    }
    set_sort(&mut out);
    proof {
        lemma_reorder_keeps_elements(pre, set_paths(out));
    }
    out
}

} // verus!
