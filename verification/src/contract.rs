//! The buffer contract: which buffer lengths a conversion accepts.
//!
//! Both checks read lengths only, so a refused call has touched no byte.

use vstd::prelude::*;
use crate::descriptor::Transform;
use crate::error::SwizzleError;

verus! {

/// The verdict on a buffer of `len` bytes that is converted in place.
pub open spec fn single_verdict(len: int) -> Result<(), SwizzleError> {
    if len % 4 != 0 {
        Err(SwizzleError::InvalidLength)
    } else {
        Ok(())
    }
}

/// The verdict on a source of `src_len` bytes and a destination of `dst_len`
/// bytes. A source that is no whole number of pixels is reported first.
pub open spec fn pair_verdict(src_len: int, dst_len: int) -> Result<(), SwizzleError> {
    if src_len % 4 != 0 {
        Err(SwizzleError::InvalidLength)
    } else if src_len != dst_len {
        Err(SwizzleError::LengthMismatch)
    } else {
        Ok(())
    }
}

/// What an in-place conversion by `t` leaves in a buffer that held `before`:
/// the converted bytes where the buffer is accepted, else `before`.
pub open spec fn left_in_place(t: Transform, before: Seq<u8>) -> Seq<u8> {
    if single_verdict(before.len() as int) is Ok {
        t.image(before)
    } else {
        before
    }
}

/// What a conversion of `src` by `t` leaves in a destination that held
/// `before`: the converted bytes of `src` where the pair is accepted, else
/// `before`.
pub open spec fn left_in_dst(t: Transform, src: Seq<u8>, before: Seq<u8>) -> Seq<u8> {
    if pair_verdict(src.len() as int, before.len() as int) is Ok {
        t.image(src)
    } else {
        before
    }
}

/// Accepts a buffer whose length is a multiple of 4.
pub fn validate_single(buf: &[u8]) -> (verdict: Result<(), SwizzleError>)
    ensures
        verdict == single_verdict(buf@.len() as int),
{
    if buf.len() % 4 != 0 {
        Err(SwizzleError::InvalidLength)
    } else {
        Ok(())
    }
}

/// Accepts a source whose length is a multiple of 4 together with a
/// destination of the same length.
pub fn validate_pair(src: &[u8], dst: &[u8]) -> (verdict: Result<(), SwizzleError>)
    ensures
        verdict == pair_verdict(src@.len() as int, dst@.len() as int),
{
    if src.len() % 4 != 0 {
        Err(SwizzleError::InvalidLength)
    } else if src.len() != dst.len() {
        Err(SwizzleError::LengthMismatch)
    } else {
        Ok(())
    }
}

} // verus!
