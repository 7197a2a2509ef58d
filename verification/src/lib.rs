//! A small fork-join task runner: named tasks, each with a unit of work that
//! either succeeds or fails with a reason, and a result table that maps each
//! task identifier to its outcome.

pub mod error;
pub mod outcome;
pub mod runner;
pub mod search;
pub mod table;
pub mod task;

use vstd::prelude::*;

verus! {

/// Sum of two machine integers, defined wherever the result fits the type.
pub fn add(a: i64, b: i64) -> (r: i64)
    requires
        i64::MIN <= a + b <= i64::MAX,
    ensures
        r == a + b,
{
    a + b
}

} // verus!
