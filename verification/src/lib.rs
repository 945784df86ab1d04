//! Registry-style namespace traversal engine.
//!
//! Enumerates every node path in a lazily opened hierarchical namespace.
//! The tree shape that an external provider reveals during one run is
//! modelled by [`tree::NodeTree`]; three interchangeable strategies turn a
//! root into a deduplicated set of paths.

use vstd::prelude::*;

pub mod engine;
pub mod interned;
pub mod hives;
pub mod laws;
pub mod metrics;
pub mod order;
pub mod resultset;
pub mod sequential;
pub mod shared_set;
pub mod tree;

verus! {

/// Separator placed between a parent path and a child name.
pub open spec fn path_sep() -> Seq<char> {
    seq!['\\']
}

/// Builds a child's full path from its parent's path and its own name.
pub fn join_path(parent: &str, name: &str) -> (r: String)
    ensures
        r@ == parent@ + path_sep() + name@,
{
    let mut s: String = String::from_str(parent);
    s.append("\\");
    s.append(name);
    proof {
        reveal_strlit("\\");
        assert("\\"@ =~= path_sep());
    }
    s
}

/// The pattern that filters results without regard to letter case: the
/// caller's pattern under a case-insensitivity marker.
pub fn case_insensitive_pattern(filter: &str) -> (r: String)
    ensures
        r@ == "(?i)"@ + filter@,
{
    let mut s: String = String::from_str("(?i)");
    s.append(filter);
    s
}

} // verus!
