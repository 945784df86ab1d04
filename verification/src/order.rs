//! Lexicographic ordering of paths, used to normalize the output of the
//! concurrent strategies.

use vstd::prelude::*;

verus! {

/// Lexicographic order on character sequences by scalar value: the order in
/// which the standard library compares strings.
pub open spec fn str_le(a: Seq<char>, b: Seq<char>) -> bool
    decreases a.len(),
{
    if a.len() == 0 {
        true
    } else if b.len() == 0 {
        false
    } else if a[0] != b[0] {
        (a[0] as int) < (b[0] as int)
    } else {
        str_le(a.drop_first(), b.drop_first())
    }
}

/// The sequence is sorted lexicographically, allowing equal neighbours.
pub open spec fn sorted_paths(s: Seq<Seq<char>>) -> bool {
    forall|i: int, j: int| 0 <= i < j < s.len() ==> str_le(s[i], s[j])
}

/// `str_le` relates every pair of paths one way or the other.
pub proof fn lemma_str_le_total(a: Seq<char>, b: Seq<char>)
    ensures
        str_le(a, b) || str_le(b, a),
    decreases a.len(),
{
    if a.len() != 0 && b.len() != 0 && a[0] == b[0] {
        lemma_str_le_total(a.drop_first(), b.drop_first());
    }
}

/// Paths below each other in `str_le` are the same path.
pub proof fn lemma_str_le_antisymmetric(a: Seq<char>, b: Seq<char>)
    requires
        str_le(a, b),
        str_le(b, a),
    ensures
        a == b,
    decreases a.len(),
{
    if a.len() == 0 {
        assert(a =~= b);
    } else {
        lemma_str_le_antisymmetric(a.drop_first(), b.drop_first());
        assert(a =~= seq![a[0]] + a.drop_first());
        assert(b =~= seq![b[0]] + b.drop_first());
    }
}

/// Reordering a duplicate-free sequence keeps it duplicate-free and keeps
/// its element set.
pub proof fn lemma_reorder_keeps_elements(a: Seq<Seq<char>>, b: Seq<Seq<char>>)
    requires
        a.to_multiset() == b.to_multiset(),
        a.no_duplicates(),
    ensures
        b.no_duplicates(),
        a.to_set() == b.to_set(),
{
    broadcast use vstd::seq_lib::group_to_multiset_ensures;

    a.lemma_multiset_has_no_duplicates();
    b.lemma_multiset_has_no_duplicates_conv();
    assert(a.to_set() =~= b.to_set()) by {
        assert forall|x: Seq<char>| a.to_set().contains(x) implies b.to_set().contains(x) by {
            assert(a.contains(x));
            assert(b.to_multiset().count(x) > 0);
        }
        assert forall|x: Seq<char>| b.to_set().contains(x) implies a.to_set().contains(x) by {
            assert(b.contains(x));
            assert(a.to_multiset().count(x) > 0);
        }
    }
}

/// A sorted sequence without duplicates is determined by the set of its
/// elements: two of them with the same element set are equal throughout.
pub proof fn lemma_sorted_unique(a: Seq<Seq<char>>, b: Seq<Seq<char>>)
    requires
        sorted_paths(a),
        sorted_paths(b),
        a.no_duplicates(),
        b.no_duplicates(),
        a.to_set() == b.to_set(),
    ensures
        a == b,
    decreases a.len(),
{
    if a.len() == 0 {
        if b.len() != 0 {
            assert(b.to_set().contains(b[0]));
            assert(a.contains(b[0]));
        }
        assert(a =~= b);
    } else {
        assert(a.to_set().contains(a[0]));
        assert(b.contains(a[0]));
        assert(b.to_set().contains(b[0]));
        assert(a.contains(b[0]));
        let ka = choose|k: int| 0 <= k < b.len() && b[k] == a[0];
        let kb = choose|k: int| 0 <= k < a.len() && a[k] == b[0];
        if ka > 0 {
            assert(str_le(b[0], b[ka]));
        }
        if kb > 0 {
            assert(str_le(a[0], a[kb]));
        }
        lemma_str_le_total(a[0], b[0]);
        lemma_str_le_antisymmetric(a[0], b[0]);
        assert(a[0] == b[0]);
        assert(a.drop_first().to_set() =~= b.drop_first().to_set()) by {
            assert forall|x: Seq<char>| a.drop_first().to_set().contains(x) implies b.drop_first().to_set().contains(x) by {
                lemma_head_removed(a, b, x);
            }
            assert forall|x: Seq<char>| b.drop_first().to_set().contains(x) implies a.drop_first().to_set().contains(x) by {
                lemma_head_removed(b, a, x);
            }
        }
        assert(sorted_paths(a.drop_first())) by {
            assert forall|i: int, j: int|
                0 <= i < j < a.drop_first().len() implies str_le(a.drop_first()[i], a.drop_first()[j]) by {
                assert(str_le(a[i + 1], a[j + 1]));
            }
        }
        assert(sorted_paths(b.drop_first())) by {
            assert forall|i: int, j: int|
                0 <= i < j < b.drop_first().len() implies str_le(b.drop_first()[i], b.drop_first()[j]) by {
                assert(str_le(b[i + 1], b[j + 1]));
            }
        }
        lemma_sorted_unique(a.drop_first(), b.drop_first());
        assert(a =~= seq![a[0]] + a.drop_first());
        assert(b =~= seq![b[0]] + b.drop_first());
    }
}

/// After removing equal heads of two duplicate-free sequences with the same
/// element set, an element of one tail is an element of the other.
proof fn lemma_head_removed(a: Seq<Seq<char>>, b: Seq<Seq<char>>, x: Seq<char>)
    requires
        a.len() > 0,
        b.len() > 0,
        a[0] == b[0],
        a.no_duplicates(),
        b.no_duplicates(),
        a.to_set() == b.to_set(),
        a.drop_first().to_set().contains(x),
    ensures
        b.drop_first().to_set().contains(x),
{
    let k = choose|k: int| 0 <= k < a.drop_first().len() && a.drop_first()[k] == x;
    assert(a[k + 1] == x);
    assert(a.contains(x));
    assert(a.to_set().contains(x));
    assert(b.contains(x));
    let j = choose|j: int| 0 <= j < b.len() && b[j] == x;
    assert(x != a[0]);
    assert(j != 0);
    assert(b.drop_first()[j - 1] == x);
    assert(b.drop_first().contains(x));
}

} // verus!
