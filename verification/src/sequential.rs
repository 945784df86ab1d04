//! The sequential traversal strategy: a single-threaded, depth-first walk
//! whose result keeps first-discovery (pre-order) insertion order.

use vstd::prelude::*;
use indexmap::IndexSet;
use crate::join_path;
use crate::resultset::{set_insert, set_new, set_paths};
use crate::tree::{
    child_path, dedup, dedup_from, entry_paths, lemma_dedup_from_concat, lemma_preorder_split,
    preorder, preorder_from, preorder_upto, ChildEntry, NodeTree, RootOutcome, TraverseError,
};

verus! {

/// Walks a root's revealed tree depth first and returns every discovered
/// path in pre-order, deduplicated, or the fatal error when the root did not
/// open.
pub fn get_all(root_name: &String, root: &RootOutcome) -> (r: Result<IndexSet<String>, TraverseError>)
    ensures
        (r is Err) <==> (root is Unavailable),
        root is Opened ==> r is Ok && set_paths(r->Ok_0) == dedup(
            preorder(root_name@, root->Opened_0),
        ) && set_paths(r->Ok_0).no_duplicates() && set_paths(r->Ok_0).to_set() == preorder(
            root_name@,
            root->Opened_0,
        ).to_set(),
{
    match root {
        RootOutcome::Unavailable => Err(TraverseError::RootUnavailable),
        RootOutcome::Opened(t) => {
            let mut out = set_new();
            walk(root_name.clone(), t, &mut out);
            proof {
                crate::laws::lemma_sequential_unique(root_name@, *t);
            }
            Ok(out)
        },
    }
}

/// Records the node with path `prefix` and everything discovered below it,
/// skipping entries that failed to enumerate and pruning children that
/// failed to open.
fn walk(prefix: String, t: &NodeTree, out: &mut IndexSet<String>)
    ensures
        set_paths(*final(out)) == dedup_from(set_paths(*old(out)), preorder(prefix@, *t)),
    decreases *t,
{
    let ghost init = set_paths(*old(out));
    set_insert(out, prefix.clone());
    proof {
        let s1 = seq![prefix@];
        let a2 = if init.contains(prefix@) {
            init
        } else {
            init.push(prefix@)
        };
        assert(s1.drop_first() =~= Seq::<Seq<char>>::empty());
        assert(dedup_from(a2, s1.drop_first()) == a2);
        assert(set_paths(*out) == dedup_from(init, s1));
        assert(s1 + preorder_upto(prefix@, *t, 0) =~= s1);
    }
    let n = t.children.len();
    let mut i: usize = 0;
    while i < n
        invariant
            n == t.children.len(),
            i <= n,
            set_paths(*out) == dedup_from(init, seq![prefix@] + preorder_upto(prefix@, *t, i as int)),
        decreases n - i,
    {
        let ghost done = seq![prefix@] + preorder_upto(prefix@, *t, i as int);
        match &t.children[i] {
            ChildEntry::NameError => {
                proof {
                    assert(done + entry_paths(prefix@, *t, i as int) =~= seq![prefix@]
                        + preorder_upto(prefix@, *t, i as int + 1));
                    assert(done + entry_paths(prefix@, *t, i as int) =~= done);
                }
            },
            ChildEntry::Unopenable(_) => {
                proof {
                    assert(done + entry_paths(prefix@, *t, i as int) =~= seq![prefix@]
                        + preorder_upto(prefix@, *t, i as int + 1));
                    assert(done + entry_paths(prefix@, *t, i as int) =~= done);
                }
            },
            ChildEntry::Open(name, sub) => {
                let path = join_path(prefix.as_str(), name.as_str());
                proof {
                    assert(path@ == child_path(prefix@, name@));
                }
                walk(path, sub, out);
                proof {
                    lemma_dedup_from_concat(init, done, entry_paths(prefix@, *t, i as int));
                    assert(done + entry_paths(prefix@, *t, i as int) =~= seq![prefix@]
                        + preorder_upto(prefix@, *t, i as int + 1));
                }
            },
        }
        i = i + 1;
    }
    proof {
        lemma_preorder_split(prefix@, *t, n as int);
        assert(preorder_upto(prefix@, *t, n as int) + preorder_from(prefix@, *t, n as int)
            =~= preorder_upto(prefix@, *t, n as int));
        assert(seq![prefix@] + preorder_upto(prefix@, *t, n as int) =~= preorder(prefix@, *t));
    }
}

} // verus!
