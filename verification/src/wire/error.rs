//! Wire-level errors.

use vstd::prelude::*;

use crate::domain::DomainError;

verus! {

/// Why bytes could not be decoded, or a message not be framed.
#[derive(Debug, Clone, Copy, PartialEq, Eq, Structural)]
#[non_exhaustive]
pub enum WireError {
    /// The buffer ends before the frame does.
    Truncated,
    /// The frame declares a length of zero, which does not even hold a kind.
    EmptyFrame,
    /// The kind byte is not assigned, or not on this stream.
    UnknownKind(u8),
    /// The padding byte at this payload offset is not zero.
    NonZeroPad(usize),
    /// A field is outside its domain.
    Domain(DomainError),
    /// The payload does not have the size that its kind asks for.
    PayloadSize,
    /// The payload does not fit a frame.
    PayloadTooLarge,
    /// The kill-switch position is not assigned.
    UnknownKillSwitchState(u8),
    /// A market order that names a price or is not immediate-or-cancel.
    MarketTerms,
}

} // verus!
