//! The outcome of polling an operation that is in flight.

use vstd::prelude::*;

verus! {

/// The outcome of a poll.
#[derive(Debug)]
pub enum Poll<T> {
    /// The operation is finished.
    Ready(T),
    /// The operation is still in flight.
    Pending,
}

} // verus!
