use vstd::prelude::*;

verus! {

/// Errors that occur while encoding a model to bytes.
#[derive(Debug, Clone, Copy, PartialEq, Eq, Structural)]
pub enum Error {
    /// A length or count does not fit into the `u32` that announces it.
    SizeUintOverflow(usize),
    /// A fixed-width text field holds more bytes than its width.
    LiteralSizeOverflow { expected: usize, passed: usize },
}

} // verus!
