use vstd::prelude::*;

verus! {

/// Why a decode stopped. Neither condition can be recovered from: once the
/// cursor has lost its place in the layout no later read can be trusted.
#[derive(Clone, Copy, Debug, PartialEq, Eq)]
pub enum DecodeError {
    /// A read needed the byte at `position`, but the buffer holds only
    /// `length` bytes.
    OutOfBounds { position: usize, length: usize },
    /// A constant-pool entry began with a tag that names no known entry kind.
    /// `position` is where the cursor stood when the tag was rejected: one past
    /// the tag byte, when the tag was read through the same cursor.
    UnsupportedTag { tag: u8, position: usize },
}

} // verus!
