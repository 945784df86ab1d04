//! Instrumentation figures derived from a finished traversal: the result
//! count and the throughput, from a count and an elapsed time measured by
//! the caller.

use vstd::prelude::*;
use indexmap::IndexSet;
use crate::resultset::{set_len, set_paths};

verus! {

/// The number of paths a traversal returned, read without consuming or
/// materializing the collection elsewhere.
pub fn result_count(s: &IndexSet<String>) -> (r: usize)
    ensures
        r == set_paths(*s).len(),
{
    set_len(s)
}

/// Nodes per second from a result count and an elapsed time in
/// microseconds. When no time elapsed the figure is unavailable rather
/// than a division fault.
pub fn throughput(count: u64, elapsed_micros: u64) -> (r: Option<u128>)
    ensures
        elapsed_micros == 0 ==> r is None,
        elapsed_micros != 0 ==> r == Some::<u128>(
            ((count * 1000000) / (elapsed_micros as int)) as u128,
        ),
{
    if elapsed_micros == 0 {
        None
    } else {
        let scaled: u128 = (count as u128) * 1000000;
        proof {
            assert((count as u128) * 1000000 <= 0xFFFFFFFFFFFFFFFFu128 * 1000000) by (nonlinear_arith)
                requires
                    count <= 0xFFFFFFFFFFFFFFFFu64,
            ;
        }
        Some(scaled / (elapsed_micros as u128))
    }
}

} // verus!
