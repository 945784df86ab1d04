//! The concurrent shared-set traversal strategy: workers insert every
//! discovered path into one thread-safe set (`dashmap::DashSet`), and the
//! drained result is sorted once all work has finished.
//!
//! The engine here states and proves what any interleaving of the fan-out
//! must produce: the set of reachable paths, sorted, without duplicates.

use vstd::prelude::*;
use dashmap::DashSet;
use indexmap::IndexSet;
use crate::join_path;
use crate::order::sorted_paths;
use crate::resultset::{set_paths, sorted_set_from};
use crate::tree::{
    child_path, entry_paths, lemma_concat_to_set, lemma_preorder_split, preorder, preorder_from,
    preorder_upto, ChildEntry, NodeTree, RootOutcome, TraverseError,
};

verus! {

#[verifier::external_type_specification]
#[verifier::external_body]
#[verifier::reject_recursive_types(K)]
#[verifier::reject_recursive_types(S)]
pub struct ExDashSet<K, S>(DashSet<K, S>);

/// The paths that the shared set holds. Workers insert under arbitrary
/// interleavings, so no order is associated with the contents.
pub uninterp spec fn shared_contents(s: DashSet<String>) -> Set<Seq<char>>;

/// Relies on dashmap's DashSet::new: creates an empty set.
#[verifier::external_body]
fn shared_new() -> (s: DashSet<String>)
    ensures
        shared_contents(s) == Set::<Seq<char>>::empty(),
{
    DashSet::new()
}

/// Relies on dashmap's DashSet::insert: adds the value, and reports whether
/// it was absent.
#[verifier::external_body]
fn shared_insert(s: &mut DashSet<String>, v: String) -> (r: bool)
    ensures
        shared_contents(*final(s)) == shared_contents(*old(s)).insert(v@),
        r == !shared_contents(*old(s)).contains(v@),
{
    s.insert(v)
}

/// Relies on dashmap's DashSet::iter: visits every held value exactly once,
/// in no promised order; the body only copies them out.
#[verifier::external_body]
fn shared_to_vec(s: &DashSet<String>) -> (r: Vec<String>)
    ensures
        r@.map_values(|x: String| x@).to_set() == shared_contents(*s),
        r@.map_values(|x: String| x@).no_duplicates(),
{
    s.iter().map(|x| x.key().clone()).collect()
}

/// Walks a root's revealed tree, merging every discovered path into a
/// shared set, and returns the drained set sorted lexicographically; the
/// fatal error when the root did not open.
pub fn get_all(root_name: &String, root: &RootOutcome) -> (r: Result<IndexSet<String>, TraverseError>)
    ensures
        (r is Err) <==> (root is Unavailable),
        root is Opened ==> r is Ok && sorted_paths(set_paths(r->Ok_0)) && set_paths(
            r->Ok_0,
        ).no_duplicates() && set_paths(r->Ok_0).to_set() == preorder(
            root_name@,
            root->Opened_0,
        ).to_set(),
{
    match root {
        RootOutcome::Unavailable => Err(TraverseError::RootUnavailable),
        RootOutcome::Opened(t) => {
            let mut shared = shared_new();
            walk(root_name.clone(), t, &mut shared);
            let drained = shared_to_vec(&shared);
            let out = sorted_set_from(&drained);
            proof {
                assert(Set::<Seq<char>>::empty() + preorder(root_name@, *t).to_set()
                    =~= preorder(root_name@, *t).to_set());
            }
            Ok(out)
        },
    }
}

/// Adds the path of the node and of everything discovered below it to the
/// shared set, skipping entries that failed to enumerate and pruning
/// children that failed to open.
fn walk(prefix: String, t: &NodeTree, s: &mut DashSet<String>)
    ensures
        shared_contents(*final(s)) == shared_contents(*old(s)) + preorder(prefix@, *t).to_set(),
    decreases *t,
{
    let ghost init = shared_contents(*old(s));
    shared_insert(s, prefix.clone());
    proof {
        let s0 = seq![prefix@] + preorder_upto(prefix@, *t, 0);
        assert(s0.len() == 1 && s0[0] == prefix@);
        assert(s0.to_set() =~= Set::<Seq<char>>::empty().insert(prefix@)) by {
            assert(s0.contains(prefix@));
            assert forall|x: Seq<char>| s0.to_set().contains(x) implies x == prefix@ by {
                let k = choose|k: int| 0 <= k < s0.len() && s0[k] == x;
            }
        }
        assert(shared_contents(*s) =~= init + s0.to_set());
    }
    let n = t.children.len();
    let mut i: usize = 0;
    while i < n
        invariant
            n == t.children.len(),
            i <= n,
            shared_contents(*s) == init + (seq![prefix@] + preorder_upto(
                prefix@,
                *t,
                i as int,
            )).to_set(),
        decreases n - i,
    {
        let ghost done = seq![prefix@] + preorder_upto(prefix@, *t, i as int);
        match &t.children[i] {
            ChildEntry::NameError => {
                proof {
                    assert(done + entry_paths(prefix@, *t, i as int) =~= seq![prefix@]
                        + preorder_upto(prefix@, *t, i as int + 1));
                    assert(done + entry_paths(prefix@, *t, i as int) =~= done);
                }
            },
            ChildEntry::Unopenable(_) => {
                proof {
                    assert(done + entry_paths(prefix@, *t, i as int) =~= seq![prefix@]
                        + preorder_upto(prefix@, *t, i as int + 1));
                    assert(done + entry_paths(prefix@, *t, i as int) =~= done);
                }
            },
            ChildEntry::Open(name, sub) => {
                let path = join_path(prefix.as_str(), name.as_str());
                proof {
                    assert(path@ == child_path(prefix@, name@));
                }
                walk(path, sub, s);
                proof {
                    lemma_concat_to_set(done, entry_paths(prefix@, *t, i as int));
                    assert(done + entry_paths(prefix@, *t, i as int) =~= seq![prefix@]
                        + preorder_upto(prefix@, *t, i as int + 1));
                    assert(shared_contents(*s) =~= init + (done + entry_paths(
                        prefix@,
                        *t,
                        i as int,
                    )).to_set());
                }
            },
        }
        i = i + 1;
    }
    proof {
        lemma_preorder_split(prefix@, *t, n as int);
        assert(preorder_upto(prefix@, *t, n as int) + preorder_from(prefix@, *t, n as int)
            =~= preorder_upto(prefix@, *t, n as int));
        assert(seq![prefix@] + preorder_upto(prefix@, *t, n as int) =~= preorder(prefix@, *t));
    }
}

} // verus!
