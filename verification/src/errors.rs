//! Error kinds shared by every core operation.

use vstd::prelude::*;

verus! {

/// Every fallible core operation reports one of these kinds; no operation
/// silently swallows a hardware-access failure.
#[derive(Debug)]
pub enum TfError {
    /// The device could not be opened or mapped; carries the platform message.
    Mapping(String),
    /// A 4-byte transfer was requested at an offset that is not 4-byte aligned.
    Alignment(u32),
    /// A 4-byte transfer at this offset would run past the mapped length.
    Bounds(u64),
    /// A register path or ring name did not resolve.
    NotFound(String),
    /// An identifier was neither a numeric literal nor a register name.
    BadIdentifier(String),
    /// A fixed-size blob had an unexpected word count; carries the count seen.
    LengthMismatch(usize),
}

} // verus!
