//! The concurrent interned traversal strategy: every discovered path is
//! mapped to a compact integer symbol by one shared interner
//! (`string_interner::StringInterner` over its buffer backend) and only the
//! symbol is recorded while work is in flight; at the end all symbols are
//! resolved back to strings and sorted.
//!
//! The engine here states and proves what any interleaving of the fan-out
//! must produce: the set of reachable paths, sorted, without duplicates.

use vstd::prelude::*;
use indexmap::IndexSet;
use std::collections::hash_map::RandomState;
use string_interner::backend::BufferBackend;
use string_interner::StringInterner;
use crate::join_path;
use crate::order::sorted_paths;
use crate::resultset::{set_paths, sorted_set_from};
use crate::tree::{
    child_path, entry_paths, lemma_concat_to_set, lemma_preorder_split, preorder, preorder_from,
    preorder_upto, ChildEntry, NodeTree, RootOutcome, TraverseError,
};

verus! {

/// The shared interner as one traversal run uses it: string_interner's
/// buffer-backed interner with plain integer symbols, owned by the run.
#[verifier::external_body]
pub struct PathInterner {
    inner: StringInterner<BufferBackend<usize>, RandomState>,
}

/// What the interner holds: the string each issued symbol resolves to.
pub uninterp spec fn interner_map(it: PathInterner) -> Map<int, Seq<char>>;

/// The symbols that the symbol set holds, in insertion order.
pub uninterp spec fn sym_entries(s: IndexSet<usize>) -> Seq<int>;

/// The strings that a sequence of symbols resolves to under an interner
/// holding `m`.
pub open spec fn resolved_paths(m: Map<int, Seq<char>>, syms: Seq<int>) -> Seq<Seq<char>> {
    syms.map_values(|s: int| m[s])
}

/// Every symbol of the sequence has been issued under `m`.
pub open spec fn syms_in_dom(m: Map<int, Seq<char>>, syms: Seq<int>) -> bool {
    forall|k: int| 0 <= k < syms.len() ==> m.dom().contains(#[trigger] syms[k])
}

/// An interner that has issued no symbol yet.
pub open spec fn empty_interner_map() -> Map<int, Seq<char>> {
    Map::empty()
}

/// Relies on string_interner's StringInterner::new: an empty interner.
#[verifier::external_body]
fn interner_new() -> (r: PathInterner)
    ensures
        interner_map(r) == empty_interner_map(),
{
    PathInterner { inner: StringInterner::new() }
}

/// Relies on string_interner's StringInterner::get_or_intern: returns the
/// symbol already issued for an equal string, or issues a fresh one for it.
#[verifier::external_body]
fn interner_get_or_intern(it: &mut PathInterner, v: &String) -> (sym: usize)
    ensures
        interner_map(*final(it)).dom().contains(sym as int),
        interner_map(*final(it))[sym as int] == v@,
        interner_map(*old(it)).contains_value(v@) ==> interner_map(*final(it)) == interner_map(
            *old(it),
        ),
        !interner_map(*old(it)).contains_value(v@) ==> !interner_map(*old(it)).dom().contains(
            sym as int,
        ) && interner_map(*final(it)) == interner_map(*old(it)).insert(sym as int, v@),
{
    it.inner.get_or_intern(v.as_str())
}

/// Relies on string_interner's StringInterner::resolve: returns the string
/// an issued symbol stands for; the body only copies it out.
#[verifier::external_body]
fn interner_resolve(it: &PathInterner, sym: usize) -> (r: Option<String>)
    ensures
        interner_map(*it).dom().contains(sym as int) ==> r is Some && r->Some_0@ == interner_map(
            *it,
        )[sym as int],
{
    it.inner.resolve(sym).map(|s| s.to_string())
}

/// Relies on indexmap's IndexSet::new: creates an empty symbol set.
#[verifier::external_body]
fn sym_set_new() -> (s: IndexSet<usize>)
    ensures
        sym_entries(s) == Seq::<int>::empty(),
{
    IndexSet::new()
}

/// Relies on indexmap's IndexSet::insert: appends the symbol unless an
/// equal one is present, keeping insertion order.
#[verifier::external_body]
fn sym_set_insert(s: &mut IndexSet<usize>, v: usize) -> (r: bool)
    ensures
        sym_entries(*final(s)) == if sym_entries(*old(s)).contains(v as int) {
            sym_entries(*old(s))
        } else {
            sym_entries(*old(s)).push(v as int)
        },
        r == !sym_entries(*old(s)).contains(v as int),
{
    s.insert(v)
}

/// Relies on indexmap's IndexSet::iter: yields the symbols in insertion
/// order; the body only copies them out.
#[verifier::external_body]
fn sym_set_to_vec(s: &IndexSet<usize>) -> (r: Vec<usize>)
    ensures
        r@.map_values(|x: usize| x as int) == sym_entries(*s),
{
    s.iter().copied().collect()
}

/// Growing the interner does not change what previously issued symbols
/// resolve to.
proof fn lemma_resolve_stable(m1: Map<int, Seq<char>>, m2: Map<int, Seq<char>>, syms: Seq<int>)
    requires
        m1.submap_of(m2),
        syms_in_dom(m1, syms),
    ensures
        resolved_paths(m2, syms) == resolved_paths(m1, syms),
{
    assert forall|k: int| 0 <= k < syms.len() implies m2[syms[k]] == m1[syms[k]] by {
        assert(m1.dom().contains(syms[k]));
        assert(m2.dom().contains(syms[k]) && m1[syms[k]] == m2[syms[k]]);
    }
    assert(resolved_paths(m2, syms) =~= resolved_paths(m1, syms));
}

/// Appending to a path sequence inserts into its element set.
proof fn lemma_push_to_set(s: Seq<Seq<char>>, x: Seq<char>)
    ensures
        s.push(x).to_set() == s.to_set().insert(x),
{
    assert forall|y: Seq<char>| s.push(x).to_set().contains(y) implies s.to_set().insert(
        x,
    ).contains(y) by {
        let k = choose|k: int| 0 <= k < s.push(x).len() && s.push(x)[k] == y;
        if k < s.len() {
            assert(s[k] == y);
        }
    }
    assert forall|y: Seq<char>| s.to_set().insert(x).contains(y) implies s.push(x).to_set().contains(
        y,
    ) by {
        if y == x {
            assert(s.push(x)[s.len() as int] == y);
        } else {
            let k = choose|k: int| 0 <= k < s.len() && s[k] == y;
            assert(s.push(x)[k] == y);
        }
    }
    assert(s.push(x).to_set() =~= s.to_set().insert(x));
}

/// Interns one discovered path and records its symbol in the symbol set:
/// afterwards exactly that path has joined the recorded ones.
fn record_path(prefix: &String, it: &mut PathInterner, syms: &mut IndexSet<usize>)
    requires
        syms_in_dom(interner_map(*old(it)), sym_entries(*old(syms))),
    ensures
        interner_map(*old(it)).submap_of(interner_map(*final(it))),
        syms_in_dom(interner_map(*final(it)), sym_entries(*final(syms))),
        resolved_paths(interner_map(*final(it)), sym_entries(*final(syms))).to_set()
            == resolved_paths(interner_map(*old(it)), sym_entries(*old(syms))).to_set().insert(
            prefix@,
        ),
{
    let ghost m0 = interner_map(*old(it));
    let ghost e0 = sym_entries(*old(syms));
    let sym = interner_get_or_intern(it, prefix);
    let ghost m1 = interner_map(*it);
    proof {
        assert(m0.submap_of(m1)) by {
            if !m0.contains_value(prefix@) {
                assert forall|k: int| m0.dom().contains(k) implies m1.dom().contains(k) && m1[k]
                    == m0[k] by {
                    assert(k != sym as int);
                }
            }
        }
    }
    sym_set_insert(syms, sym);
    let ghost e1 = sym_entries(*syms);
    proof {
        lemma_resolve_stable(m0, m1, e0);
        if e0.contains(sym as int) {
            assert(e1 == e0);
            let k = choose|k: int| 0 <= k < e0.len() && e0[k] == sym as int;
            assert(resolved_paths(m1, e0)[k] == m1[sym as int]);
            assert(resolved_paths(m1, e0).to_set().contains(prefix@));
            assert(resolved_paths(m1, e1).to_set() =~= resolved_paths(m0, e0).to_set().insert(
                prefix@,
            ));
        } else {
            assert(e1 == e0.push(sym as int));
            assert(resolved_paths(m1, e1) =~= resolved_paths(m1, e0).push(m1[sym as int]));
            lemma_push_to_set(resolved_paths(m1, e0), m1[sym as int]);
        }
    }
}

/// Maps a root's revealed tree through the shared interner, recording one
/// symbol per discovered path, resolves them all back and returns them
/// sorted lexicographically; the fatal error when the root did not open.
pub fn get_all(root_name: &String, root: &RootOutcome) -> (r: Result<IndexSet<String>, TraverseError>)
    ensures
        (r is Err) <==> (root is Unavailable),
        root is Opened ==> r is Ok && sorted_paths(set_paths(r->Ok_0)) && set_paths(
            r->Ok_0,
        ).no_duplicates() && set_paths(r->Ok_0).to_set() == preorder(
            root_name@,
            root->Opened_0,
        ).to_set(),
{
    match root {
        RootOutcome::Unavailable => Err(TraverseError::RootUnavailable),
        RootOutcome::Opened(t) => {
            let mut it = interner_new();
            let mut syms = sym_set_new();
            walk(root_name.clone(), t, &mut it, &mut syms);
            let ghost m = interner_map(it);
            let ghost entries = sym_entries(syms);
            let sv = sym_set_to_vec(&syms);
            let mut strings: Vec<String> = Vec::new();
            proof {
                assert(entries.take(0) =~= Seq::<int>::empty());
                assert(strings@.map_values(|x: String| x@) =~= resolved_paths(m, entries.take(0)));
            }
            let mut k: usize = 0;
            while k < sv.len()
                invariant
                    k <= sv.len(),
                    sv@.map_values(|x: usize| x as int) == entries,
                    m == interner_map(it),
                    syms_in_dom(m, entries),
                    strings@.map_values(|x: String| x@) == resolved_paths(m, entries.take(k as int)),
                decreases sv.len() - k,
            {
                let sym = sv[k];
                proof {
                    assert(sv@.map_values(|x: usize| x as int)[k as int] == sym as int);
                    assert(entries[k as int] == sym as int);
                    assert(m.dom().contains(entries[k as int]));
                    assert(m.dom().contains(sym as int));
                }
                match interner_resolve(&it, sym) {
                    Some(s) => {
                        let ghost pre = strings@;
                        let ghost sval = s@;
                        strings.push(s);
                        proof {
                            assert(entries.len() == sv@.len());
                            assert(pre.map_values(|x: String| x@) == resolved_paths(
                                m,
                                entries.take(k as int),
                            ));
                            assert(pre.map_values(|x: String| x@).len() == pre.len());
                            assert(resolved_paths(m, entries.take(k as int)).len()
                                == entries.take(k as int).len());
                            assert(pre.len() == entries.take(k as int).len());
                            assert(pre.len() == k as int);
                            assert(sval == m[sym as int]);
                            assert(strings@ == pre.push(strings@[k as int]));
                            assert(strings@[k as int]@ == sval);
                            assert forall|j: int| 0 <= j < k as int + 1 implies #[trigger] resolved_paths(
                                m,
                                entries.take(k as int + 1),
                            )[j] == strings@.map_values(|x: String| x@)[j] by {
                                assert(entries.take(k as int + 1)[j] == entries[j]);
                                assert(resolved_paths(m, entries.take(k as int + 1))[j] == m[entries[j]]);
                                assert(strings@.map_values(|x: String| x@)[j] == strings@[j]@);
                                if j < k as int {
                                    assert(strings@[j] == pre[j]);
                                    assert(resolved_paths(m, entries.take(k as int))[j] == m[entries[j]]);
                                    assert(pre.map_values(|x: String| x@)[j] == pre[j]@);
                                    assert(pre[j]@ == m[entries[j]]);
                                } else {
                                    assert(strings@[j]@ == sval);
                                    assert(entries[j] == sym as int);
                                }
                            }
                            assert(strings@.map_values(|x: String| x@) =~= resolved_paths(
                                m,
                                entries.take(k as int + 1),
                            ));
                        }
                    },
                    None => {
                        proof {
                            assert(false);
                        }
                    },
                }
                k = k + 1;
            }
            proof {
                assert(entries.take(sv@.len() as int) =~= entries);
                assert(resolved_paths(Map::<int, Seq<char>>::empty(), Seq::<int>::empty())
                    =~= Seq::<Seq<char>>::empty());
                assert(Seq::<Seq<char>>::empty().to_set() + preorder(root_name@, *t).to_set()
                    =~= preorder(root_name@, *t).to_set());
            }
            let out = sorted_set_from(&strings);
            Ok(out)
        },
    }
}

/// Interns the path of the node and of everything discovered below it,
/// recording the symbols, skipping entries that failed to enumerate and
/// pruning children that failed to open.
fn walk(prefix: String, t: &NodeTree, it: &mut PathInterner, syms: &mut IndexSet<usize>)
    requires
        syms_in_dom(interner_map(*old(it)), sym_entries(*old(syms))),
    ensures
        interner_map(*old(it)).submap_of(interner_map(*final(it))),
        syms_in_dom(interner_map(*final(it)), sym_entries(*final(syms))),
        resolved_paths(interner_map(*final(it)), sym_entries(*final(syms))).to_set()
            == resolved_paths(interner_map(*old(it)), sym_entries(*old(syms))).to_set() + preorder(
            prefix@,
            *t,
        ).to_set(),
    decreases *t,
{
    let ghost m0 = interner_map(*old(it));
    let ghost e0 = sym_entries(*old(syms));
    let ghost base = resolved_paths(m0, e0).to_set();
    record_path(&prefix, it, syms);
    proof {
        let s0 = seq![prefix@] + preorder_upto(prefix@, *t, 0);
        assert(s0.len() == 1 && s0[0] == prefix@);
        assert(s0.to_set() =~= Set::<Seq<char>>::empty().insert(prefix@)) by {
            assert(s0.contains(prefix@));
            assert forall|x: Seq<char>| s0.to_set().contains(x) implies x == prefix@ by {
                let k = choose|k: int| 0 <= k < s0.len() && s0[k] == x;
            }
        }
        assert(resolved_paths(interner_map(*it), sym_entries(*syms)).to_set() =~= base
            + s0.to_set());
    }
    let n = t.children.len();
    let mut i: usize = 0;
    while i < n
        invariant
            n == t.children.len(),
            i <= n,
            m0.submap_of(interner_map(*it)),
            syms_in_dom(interner_map(*it), sym_entries(*syms)),
            resolved_paths(interner_map(*it), sym_entries(*syms)).to_set() == base + (seq![prefix@]
                + preorder_upto(prefix@, *t, i as int)).to_set(),
        decreases n - i,
    {
        let ghost done = seq![prefix@] + preorder_upto(prefix@, *t, i as int);
        match &t.children[i] {
            ChildEntry::NameError => {
                proof {
                    assert(done + entry_paths(prefix@, *t, i as int) =~= seq![prefix@]
                        + preorder_upto(prefix@, *t, i as int + 1));
                    assert(done + entry_paths(prefix@, *t, i as int) =~= done);
                }
            },
            ChildEntry::Unopenable(_) => {
                proof {
                    assert(done + entry_paths(prefix@, *t, i as int) =~= seq![prefix@]
                        + preorder_upto(prefix@, *t, i as int + 1));
                    assert(done + entry_paths(prefix@, *t, i as int) =~= done);
                }
            },
            ChildEntry::Open(name, sub) => {
                let path = join_path(prefix.as_str(), name.as_str());
                proof {
                    assert(path@ == child_path(prefix@, name@));
                }
                let ghost m_pre = interner_map(*it);
                walk(path, sub, it, syms);
                proof {
                    let m_now = interner_map(*it);
                    assert(m0.submap_of(m_pre));
                    assert(m_pre.submap_of(m_now));
                    assert(m0.submap_of(m_now)) by {
                        assert forall|key: int| #[trigger] m0.dom().contains(key) implies m_now.dom().contains(
                            key,
                        ) && m0[key] == m_now[key] by {
                            assert(m_pre.dom().contains(key) && m0[key] == m_pre[key]);
                            assert(m_now.dom().contains(key) && m_pre[key] == m_now[key]);
                        }
                    }
                    lemma_concat_to_set(done, entry_paths(prefix@, *t, i as int));
                    assert(done + entry_paths(prefix@, *t, i as int) =~= seq![prefix@]
                        + preorder_upto(prefix@, *t, i as int + 1));
                    assert(resolved_paths(interner_map(*it), sym_entries(*syms)).to_set() =~= base
                        + (done + entry_paths(prefix@, *t, i as int)).to_set());
                }
            },
        }
        i = i + 1;
    }
    proof {
        lemma_preorder_split(prefix@, *t, n as int);
        assert(preorder_upto(prefix@, *t, n as int) + preorder_from(prefix@, *t, n as int)
            =~= preorder_upto(prefix@, *t, n as int));
        assert(seq![prefix@] + preorder_upto(prefix@, *t, n as int) =~= preorder(prefix@, *t));
    }
}

} // verus!
