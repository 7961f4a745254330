//! The closed set of errors the codec reports. A truncated or adversarial
//! buffer always yields one of these values, never a panic.

use vstd::prelude::*;

verus! {

/// Common error enum for library functions.
#[derive(Debug, Clone, Copy, PartialEq, Eq, Structural)]
pub enum TlvError {
    /// A TLV that was being read had an unexpected type.
    TypeMismatch {
        /// The expected type.
        expected: usize,
        /// The actual type read.
        found: usize,
    },
    /// The data stream ended, even though more data was expected.
    UnexpectedEndOfStream,
    /// A fixed-width numeric decode received a buffer whose size matches none
    /// of the supported widths.
    UnexpectedLength,
}

} // verus!
