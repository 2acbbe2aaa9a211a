//! The ways in which a conversion call can be refused.

use vstd::prelude::*;

verus! {

/// Why a conversion was refused. Every refusal is decided from the buffer
/// lengths alone, before any byte is written.
#[derive(Clone, Copy, Debug, PartialEq, Eq, Structural)]
pub enum SwizzleError {
    /// The buffer to convert is not a whole number of 4-byte pixels.
    InvalidLength,
    /// The destination buffer is not as long as the source buffer.
    LengthMismatch,
}

impl SwizzleError {
    /// A short description of the error, for messages.
    pub fn message(&self) -> (text: &'static str)
        ensures
            text@ == (match *self {
                SwizzleError::InvalidLength => "buffer length is not a multiple of 4"@,
                SwizzleError::LengthMismatch => "destination length differs from source length"@,
            }),
    {
        match self {
            SwizzleError::InvalidLength => "buffer length is not a multiple of 4",
            SwizzleError::LengthMismatch => "destination length differs from source length",
        }
    }
}

} // verus!
