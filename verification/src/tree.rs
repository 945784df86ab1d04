//! Model of the tree shape that an external node provider reveals during one
//! traversal run, together with the specification of which paths a traversal
//! discovers.

use vstd::prelude::*;
use crate::path_sep;

verus! {

/// One entry that enumerating the children of an open node yields.
pub enum ChildEntry {
    /// The enumeration produced an error instead of a name; the engine skips
    /// the entry and continues with the remaining ones.
    NameError,
    /// The name was listed, but opening the child failed; the branch is
    /// pruned and nothing below it is discovered.
    Unopenable(String),
    /// The child opened; the provider revealed its own children in turn.
    Open(String, NodeTree),
}

/// The shape that the provider reveals below one open node: the outcome of
/// enumerating its children, in enumeration order.
pub struct NodeTree {
    pub children: Vec<ChildEntry>,
}

/// What opening the root node itself produced.
pub enum RootOutcome {
    /// The root could not be opened; the whole traversal fails.
    Unavailable,
    /// The root opened and revealed this tree.
    Opened(NodeTree),
}

/// The one fatal traversal failure: the root node itself would not open.
#[derive(Debug)]
pub enum TraverseError {
    RootUnavailable,
}

/// The full path of a child whose parent has path `prefix`.
pub open spec fn child_path(prefix: Seq<char>, name: Seq<char>) -> Seq<char> {
    prefix + path_sep() + name
}

/// All paths a traversal discovers below a node with path `prefix`, in
/// pre-order: the node's own path first, then each opened child's subtree in
/// enumeration order.
pub open spec fn preorder(prefix: Seq<char>, t: NodeTree) -> Seq<Seq<char>>
    decreases t, 1int, 0int,
{
    seq![prefix] + preorder_from(prefix, t, 0)
}

/// The paths contributed by the children of `t` from entry `i` on.
pub open spec fn preorder_from(prefix: Seq<char>, t: NodeTree, i: int) -> Seq<Seq<char>>
    decreases t, 0int, t.children@.len() - i + 1,
{
    if 0 <= i < t.children@.len() {
        entry_paths(prefix, t, i) + preorder_from(prefix, t, i + 1)
    } else {
        Seq::<Seq<char>>::empty()
    }
}

/// The paths that child entry `i` of `t` contributes: nothing unless it
/// opened, the whole subtree's pre-order otherwise.
pub open spec fn entry_paths(prefix: Seq<char>, t: NodeTree, i: int) -> Seq<Seq<char>>
    decreases t, 0int, 0int,
{
    if 0 <= i < t.children@.len() {
        match t.children@[i] {
            ChildEntry::NameError => Seq::<Seq<char>>::empty(),
            ChildEntry::Unopenable(_) => Seq::<Seq<char>>::empty(),
            ChildEntry::Open(name, sub) => preorder(child_path(prefix, name@), sub),
        }
    } else {
        Seq::<Seq<char>>::empty()
    }
}

/// The paths contributed by the children of `t` before entry `i`.
pub open spec fn preorder_upto(prefix: Seq<char>, t: NodeTree, i: int) -> Seq<Seq<char>>
    decreases i,
{
    if i <= 0 {
        Seq::<Seq<char>>::empty()
    } else {
        preorder_upto(prefix, t, i - 1) + entry_paths(prefix, t, i - 1)
    }
}

/// The children's paths split at entry `i` into those before and from it.
pub proof fn lemma_preorder_split(prefix: Seq<char>, t: NodeTree, i: int)
    requires
        0 <= i <= t.children@.len(),
    ensures
        preorder_from(prefix, t, 0) == preorder_upto(prefix, t, i) + preorder_from(prefix, t, i),
    decreases i,
{
    if i == 0 {
        assert(preorder_upto(prefix, t, 0) + preorder_from(prefix, t, 0) =~= preorder_from(
            prefix,
            t,
            0,
        ));
    } else {
        lemma_preorder_split(prefix, t, i - 1);
        assert(preorder_upto(prefix, t, i - 1) + (entry_paths(prefix, t, i - 1) + preorder_from(
            prefix,
            t,
            i,
        )) =~= (preorder_upto(prefix, t, i - 1) + entry_paths(prefix, t, i - 1)) + preorder_from(
            prefix,
            t,
            i,
        ));
    }
}

/// A path `p` is reachable from a node with path `prefix` when it is that
/// node's own path or lies below a chain of successfully opened children.
pub open spec fn is_reachable(prefix: Seq<char>, t: NodeTree, p: Seq<char>) -> bool
    decreases t, 1int, 0int,
{
    p == prefix || reachable_from(prefix, t, 0, p)
}

/// Whether `p` is reachable through one of the children of `t` from entry
/// `i` on.
pub open spec fn reachable_from(prefix: Seq<char>, t: NodeTree, i: int, p: Seq<char>) -> bool
    decreases t, 0int, t.children@.len() - i,
{
    if 0 <= i < t.children@.len() {
        (match t.children@[i] {
            ChildEntry::NameError => false,
            ChildEntry::Unopenable(_) => false,
            ChildEntry::Open(name, sub) => is_reachable(child_path(prefix, name@), sub, p),
        }) || reachable_from(prefix, t, i + 1, p)
    } else {
        false
    }
}

/// A path is discovered by the traversal exactly when a chain of
/// successfully opened nodes from the root leads to it; a path whose chain
/// includes a failed open or a failed enumeration entry is absent.
pub proof fn lemma_discovered_iff_reachable(prefix: Seq<char>, t: NodeTree, p: Seq<char>)
    ensures
        preorder(prefix, t).contains(p) <==> is_reachable(prefix, t, p),
    decreases t, 1int, 0int,
{
    lemma_discovered_iff_reachable_from(prefix, t, 0, p);
    let own = seq![prefix];
    lemma_concat_to_set(own, preorder_from(prefix, t, 0));
    assert(own.contains(p) <==> p == prefix) by {
        if own.contains(p) {
            let k = choose|k: int| 0 <= k < own.len() && own[k] == p;
        }
        if p == prefix {
            assert(own[0] == p);
        }
    }
    assert(preorder(prefix, t).contains(p) <==> preorder(prefix, t).to_set().contains(p));
    assert(own.contains(p) <==> own.to_set().contains(p));
    assert(preorder_from(prefix, t, 0).contains(p) <==> preorder_from(prefix, t, 0).to_set().contains(p));
}

/// The same, for the part of the traversal from child entry `i` on.
pub proof fn lemma_discovered_iff_reachable_from(prefix: Seq<char>, t: NodeTree, i: int, p: Seq<char>)
    ensures
        preorder_from(prefix, t, i).contains(p) <==> reachable_from(prefix, t, i, p),
    decreases t, 0int, t.children@.len() - i + 1,
{
    if 0 <= i < t.children@.len() {
        lemma_discovered_iff_reachable_from(prefix, t, i + 1, p);
        let head = entry_paths(prefix, t, i);
        let rest = preorder_from(prefix, t, i + 1);
        lemma_concat_to_set(head, rest);
        assert(head.contains(p) <==> head.to_set().contains(p));
        assert(rest.contains(p) <==> rest.to_set().contains(p));
        assert((head + rest).contains(p) <==> (head + rest).to_set().contains(p));
        match t.children@[i] {
            ChildEntry::NameError => {},
            ChildEntry::Unopenable(_) => {},
            ChildEntry::Open(name, sub) => {
                lemma_discovered_iff_reachable(child_path(prefix, name@), sub, p);
            },
        }
    }
}

/// Appends to `acc` every element of `s` not already present, left to right:
/// the contents of an insertion-ordered set after inserting all of `s`.
pub open spec fn dedup_from(acc: Seq<Seq<char>>, s: Seq<Seq<char>>) -> Seq<Seq<char>>
    decreases s.len(),
{
    if s.len() == 0 {
        acc
    } else {
        dedup_from(
            if acc.contains(s[0]) {
                acc
            } else {
                acc.push(s[0])
            },
            s.drop_first(),
        )
    }
}

/// `s` with every repeated element removed, keeping first occurrences.
pub open spec fn dedup(s: Seq<Seq<char>>) -> Seq<Seq<char>> {
    dedup_from(Seq::empty(), s)
}

/// Concatenation of path sequences unions their element sets.
pub proof fn lemma_concat_to_set(a: Seq<Seq<char>>, b: Seq<Seq<char>>)
    ensures
        (a + b).to_set() == a.to_set() + b.to_set(),
{
    assert forall|x: Seq<char>| (a + b).to_set().contains(x) implies (a.to_set() + b.to_set()).contains(x) by {
        let k = choose|k: int| 0 <= k < (a + b).len() && (a + b)[k] == x;
        if k < a.len() {
            assert(a[k] == x);
        } else {
            assert(b[k - a.len()] == x);
        }
    }
    assert forall|x: Seq<char>| (a.to_set() + b.to_set()).contains(x) implies (a + b).to_set().contains(x) by {
        if a.to_set().contains(x) {
            let k = choose|k: int| 0 <= k < a.len() && a[k] == x;
            assert((a + b)[k] == x);
        } else {
            let k = choose|k: int| 0 <= k < b.len() && b[k] == x;
            assert((a + b)[k + a.len()] == x);
        }
    }
    assert((a + b).to_set() =~= a.to_set() + b.to_set());
}

/// Deduplicating a concatenation deduplicates the parts in turn.
pub proof fn lemma_dedup_from_concat(acc: Seq<Seq<char>>, a: Seq<Seq<char>>, b: Seq<Seq<char>>)
    ensures
        dedup_from(acc, a + b) == dedup_from(dedup_from(acc, a), b),
    decreases a.len(),
{
    if a.len() == 0 {
        assert(a + b =~= b);
    } else {
        let acc2 = if acc.contains(a[0]) {
            acc
        } else {
            acc.push(a[0])
        };
        assert((a + b).drop_first() =~= a.drop_first() + b);
        lemma_dedup_from_concat(acc2, a.drop_first(), b);
    }
}

/// Deduplication changes no membership: the result holds exactly the
/// elements of the accumulator and of the input.
pub proof fn lemma_dedup_from_set(acc: Seq<Seq<char>>, s: Seq<Seq<char>>)
    ensures
        dedup_from(acc, s).to_set() == acc.to_set() + s.to_set(),
    decreases s.len(),
{
    if s.len() == 0 {
        assert(dedup_from(acc, s).to_set() =~= acc.to_set() + s.to_set());
    } else {
        let acc2 = if acc.contains(s[0]) {
            acc
        } else {
            acc.push(s[0])
        };
        lemma_dedup_from_set(acc2, s.drop_first());
        assert(acc2.to_set() =~= acc.to_set().insert(s[0])) by {
            if acc.contains(s[0]) {
                assert(acc.to_set().contains(s[0]));
            } else {
                assert forall|x: Seq<char>| acc2.to_set().contains(x) implies acc.to_set().insert(
                    s[0],
                ).contains(x) by {
                    let k = choose|k: int| 0 <= k < acc2.len() && acc2[k] == x;
                    if k < acc.len() {
                        assert(acc.contains(x));
                    }
                }
                assert forall|x: Seq<char>| acc.to_set().insert(s[0]).contains(x) implies acc2.to_set().contains(x) by {
                    if x == s[0] {
                        assert(acc2[acc.len() as int] == x);
                        assert(acc2.contains(x));
                    } else {
                        let k = choose|k: int| 0 <= k < acc.len() && acc[k] == x;
                        assert(acc2[k] == x);
                        assert(acc2.contains(x));
                    }
                }
            }
        }
        assert(s.drop_first().to_set().insert(s[0]) =~= s.to_set()) by {
            assert forall|x: Seq<char>| s.to_set().contains(x) implies s.drop_first().to_set().insert(
                s[0],
            ).contains(x) by {
                let k = choose|k: int| 0 <= k < s.len() && s[k] == x;
                if k > 0 {
                    assert(s.drop_first()[k - 1] == x);
                }
            }
            assert forall|x: Seq<char>| s.drop_first().to_set().insert(s[0]).contains(x) implies s.to_set().contains(x) by {
                if x == s[0] {
                    assert(s.contains(s[0]));
                } else {
                    let k = choose|k: int| 0 <= k < s.drop_first().len() && s.drop_first()[k] == x;
                    assert(s[k + 1] == x);
                }
            }
        }
        assert(dedup_from(acc, s).to_set() =~= acc.to_set() + s.to_set());
    }
}

/// Deduplication introduces no duplicate: if the accumulator held none, the
/// result holds none.
pub proof fn lemma_dedup_from_no_duplicates(acc: Seq<Seq<char>>, s: Seq<Seq<char>>)
    requires
        acc.no_duplicates(),
    ensures
        dedup_from(acc, s).no_duplicates(),
    decreases s.len(),
{
    if s.len() != 0 {
        let acc2 = if acc.contains(s[0]) {
            acc
        } else {
            acc.push(s[0])
        };
        if !acc.contains(s[0]) {
            assert forall|i: int, j: int|
                0 <= i < acc2.len() && 0 <= j < acc2.len() && i != j implies acc2[i] != acc2[j] by {
                if i < acc.len() && j < acc.len() {
                } else if i == acc.len() {
                    assert(acc.contains(acc[j]));
                } else {
                    assert(acc.contains(acc[i]));
                }
            }
        }
        lemma_dedup_from_no_duplicates(acc2, s.drop_first());
    }
}

} // verus!
