//! Errors of the on-disk encodings.
use vstd::prelude::*;

verus! {

/// Why a value could not be parsed from bytes.
#[derive(Debug, Clone, Copy, PartialEq, Eq, Structural)]
pub enum DvDeErr {
    /// The input is shorter than the value's on-disk form.
    WrongBufferSize,
}

/// Why a value could not be written as bytes.
#[derive(Debug, Clone, Copy, PartialEq, Eq, Structural)]
pub enum DvSerErr {
    /// The target is shorter than the value's on-disk form.
    BufferTooSmall,
    /// A string is longer than its length field allows: its length, then the limit.
    BadStringLength(usize, usize),
}

} // verus!
