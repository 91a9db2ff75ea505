//! A DMA buffer as the drivers hand it around: where it lies and how long it is.
use vstd::prelude::*;

verus! {

/// A buffer by address and length.
#[derive(Debug, Clone, Copy, PartialEq, Eq, Structural)]
pub struct Buffer {
    pub inner: u64,
    pub len: usize,
}

impl Buffer {
    /// The buffer's length in bytes.
    pub fn len(&self) -> (r: usize)
        ensures
            r == self.len,
    {
        self.len
    }
}

} // verus!
