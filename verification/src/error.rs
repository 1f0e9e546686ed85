//! Decode failures. A truncated read, an over-long scope, a name that is not
//! UTF-8, or a token field outside its known range; each carries the byte
//! offset at which it was noticed.

use vstd::prelude::*;

verus! {

#[derive(Debug, Clone, Copy, PartialEq, Eq, Structural)]
pub enum Error {
    /// More input was needed at the given offset than the buffer holds.
    StreamExpected(usize),
    /// A scoped region would extend past the end of the buffer.
    LimitReached(usize),
    /// The null-terminated bytes at the given offset are not valid UTF-8
    /// (owned-string read).
    DecodeStringFailed(usize),
    /// The null-terminated bytes at the given offset are not valid UTF-8
    /// (borrowed read).
    DecodeStrFailed(usize),
    /// A token field at the given offset holds a value outside its known range.
    FormatViolation(usize),
}

} // verus!
