//! A small message server protocol: a length-prefixed frame codec, a shared
//! key-value store with a registry of named peers, and the per-connection
//! state machine that ties them together.

pub mod buffers;
pub mod codec;
pub mod message;
pub mod session;
pub mod shared;
pub mod text;

use vstd::prelude::*;

verus! {

/// Adds two numbers.
pub fn add(left: usize, right: usize) -> (sum: usize)
    requires
        left + right <= usize::MAX,
    ensures
        sum == left + right,
{
    left + right
}

} // verus!
