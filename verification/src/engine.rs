//! The traversal interface exposed to callers: one entry point that selects
//! a strategy and runs it against the tree a root revealed.

use vstd::prelude::*;
use indexmap::IndexSet;
use crate::interned;
use crate::order::sorted_paths;
use crate::resultset::set_paths;
use crate::sequential;
use crate::shared_set;
use crate::tree::{dedup, preorder, RootOutcome, TraverseError};

verus! {

/// The interchangeable traversal algorithms.
pub enum Strategy {
    /// Single-threaded depth-first walk; insertion-ordered result.
    Sequential,
    /// Fan-out per child over a thread pool into one shared set; sorted
    /// result.
    ConcurrentSharedSet,
    /// The same fan-out, recording interned symbols instead of strings;
    /// sorted result.
    ConcurrentInterned,
}

/// Runs the selected strategy against the tree that the root revealed.
/// `thread_count` sizes the concurrent strategies' worker pool, `0` meaning
/// the platform default; nothing about the returned collection depends on
/// it.
pub fn traverse(
    root_name: &String,
    root: &RootOutcome,
    strategy: &Strategy,
    _thread_count: usize,
) -> (r: Result<IndexSet<String>, TraverseError>)
    ensures
        (r is Err) <==> (root is Unavailable),
        root is Opened && strategy is Sequential ==> r is Ok && set_paths(r->Ok_0) == dedup(
            preorder(root_name@, root->Opened_0),
        ),
        root is Opened && !(strategy is Sequential) ==> r is Ok && sorted_paths(
            set_paths(r->Ok_0),
        ) && set_paths(r->Ok_0).to_set() == preorder(root_name@, root->Opened_0).to_set(),
        root is Opened ==> r is Ok && set_paths(r->Ok_0).no_duplicates(),
{
    match strategy {
        Strategy::Sequential => sequential::get_all(root_name, root),
        Strategy::ConcurrentSharedSet => shared_set::get_all(root_name, root),
        Strategy::ConcurrentInterned => interned::get_all(root_name, root),
    }
}

} // verus!
