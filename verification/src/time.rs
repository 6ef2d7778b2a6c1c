//! Instants, as plain values.

use vstd::prelude::*;

verus! {

/// An instant in UTC.
#[derive(Debug, Clone, Copy, PartialEq, Eq, Structural)]
pub struct Timestamp {
    /// Whole seconds since the start of 1970.
    pub seconds: i64,
    /// Nanoseconds past the second; one billion or more inside a leap second.
    pub nanos: u32,
}

} // verus!
