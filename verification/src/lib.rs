//! Debt-reallocation engine for a vault spread over lending silos.
//!
//! The library computes an optimal redistribution of a vault's debt across a
//! set of lending markets ("silos") so that the blended annual percentage rate
//! is maximised, subject to per-silo debt caps.  All arithmetic is unsigned
//! 256-bit integer arithmetic with fixed-point scaling; every fatal condition
//! (overflow, division by zero, a negative signed intermediate, an exhausted
//! cap) is surfaced as `None` rather than a panic.

pub mod num;
pub mod params;
pub mod rate;
pub mod allocator;
pub mod blended;
pub mod laws;
pub mod codec;

use vstd::prelude::*;

verus! {

} // verus!
