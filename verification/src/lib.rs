//! Channel reordering and alpha filling for packed 4-byte-per-pixel buffers.
//!
//! A buffer is a flat sequence of 4-byte pixels. Each conversion either
//! rewrites a buffer where it lies (`*_inplace`) or reads one buffer and
//! writes another of the same length. What a conversion does to a pixel is a
//! [`descriptor::Descriptor`]; the bytes it produces are
//! [`descriptor::Transform::image`] of the bytes it is given, whichever
//! backend does the work.

use vstd::prelude::*;
use crate::contract::{left_in_dst, left_in_place, pair_verdict, single_verdict};
use crate::descriptor::{
    opaque_alpha,
    reverse_bytes,
    rotate_front,
    swap_red_blue,
    swap_red_blue_opaque,
    Descriptor,
};
use crate::error::SwizzleError;

pub mod buffer;
pub mod contract;
pub mod descriptor;
pub mod error;
pub mod laws;
pub mod simd;
pub mod sisd;

verus! {

/// The two ways of doing a conversion.
#[derive(Clone, Copy, Debug, PartialEq, Eq, Structural)]
pub enum Backend {
    /// The vector kernel over the whole blocks, the scalar kernel over the
    /// pixels that follow the last whole block.
    Vector,
    /// The scalar kernel over the whole buffer.
    Scalar,
}

/// The backend of the conversions of this module, fixed for the whole crate.
pub const BACKEND: Backend = Backend::Vector;

/// Converts `src` into `dst` with the given backend. The result does not
/// depend on the backend.
pub fn convert_with(backend: Backend, desc: &Descriptor, src: &[u8], dst: &mut [u8]) -> (done:
    Result<(), SwizzleError>)
    ensures
        done == pair_verdict(src@.len() as int, old(dst)@.len() as int),
        final(dst)@ == left_in_dst(desc@, src@, old(dst)@),
{
    match backend {
        Backend::Vector => simd::convert(desc, src, dst),
        Backend::Scalar => sisd::convert(desc, src, dst),
    }
}

/// Converts `buf` where it lies with the given backend. The result does not
/// depend on the backend.
pub fn convert_inplace_with(backend: Backend, desc: &Descriptor, buf: &mut [u8]) -> (done: Result<
    (),
    SwizzleError,
>)
    ensures
        done == single_verdict(old(buf)@.len() as int),
        final(buf)@ == left_in_place(desc@, old(buf)@),
{
    match backend {
        Backend::Vector => simd::convert_inplace(desc, buf),
        Backend::Scalar => sisd::convert_inplace(desc, buf),
    }
}

/// Converts `src` into `dst` as `desc` says. Where the lengths are refused,
/// `dst` is left as it was.
pub fn convert(desc: &Descriptor, src: &[u8], dst: &mut [u8]) -> (done: Result<(), SwizzleError>)
    ensures
        done == pair_verdict(src@.len() as int, old(dst)@.len() as int),
        final(dst)@ == left_in_dst(desc@, src@, old(dst)@),
{
    convert_with(BACKEND, desc, src, dst)
}

/// Converts `buf` where it lies as `desc` says. Where the length is refused,
/// `buf` is left as it was.
pub fn convert_inplace(desc: &Descriptor, buf: &mut [u8]) -> (done: Result<(), SwizzleError>)
    ensures
        done == single_verdict(old(buf)@.len() as int),
        final(buf)@ == left_in_place(desc@, old(buf)@),
{
    convert_inplace_with(BACKEND, desc, buf)
}

/// Converts RGBA pixels to BGRA pixels where they lie: the red and blue channels change places.
pub fn rgba_to_bgra_inplace(buf: &mut [u8]) -> (done: Result<(), SwizzleError>)
    ensures
        done == single_verdict(old(buf)@.len() as int),
        final(buf)@ == left_in_place(swap_red_blue(), old(buf)@),
{
    convert_inplace(&Descriptor::swap(), buf)
}

/// Converts the RGBA pixels of `src` to BGRA pixels in `dst`: the red and blue channels change places.
pub fn rgba_to_bgra(src: &[u8], dst: &mut [u8]) -> (done: Result<(), SwizzleError>)
    ensures
        done == pair_verdict(src@.len() as int, old(dst)@.len() as int),
        final(dst)@ == left_in_dst(swap_red_blue(), src@, old(dst)@),
{
    convert(&Descriptor::swap(), src, dst)
}

/// Converts BGRA pixels to RGBA pixels where they lie: the blue and red channels change places.
pub fn bgra_to_rgba_inplace(buf: &mut [u8]) -> (done: Result<(), SwizzleError>)
    ensures
        done == single_verdict(old(buf)@.len() as int),
        final(buf)@ == left_in_place(swap_red_blue(), old(buf)@),
{
    convert_inplace(&Descriptor::swap(), buf)
}

/// Converts the BGRA pixels of `src` to RGBA pixels in `dst`: the blue and red channels change places.
pub fn bgra_to_rgba(src: &[u8], dst: &mut [u8]) -> (done: Result<(), SwizzleError>)
    ensures
        done == pair_verdict(src@.len() as int, old(dst)@.len() as int),
        final(dst)@ == left_in_dst(swap_red_blue(), src@, old(dst)@),
{
    convert(&Descriptor::swap(), src, dst)
}

/// Converts RGB0 pixels to RGBX pixels where they lie: the colours stay and the fourth byte becomes 255.
pub fn rgb0_to_rgbx_inplace(buf: &mut [u8]) -> (done: Result<(), SwizzleError>)
    ensures
        done == single_verdict(old(buf)@.len() as int),
        final(buf)@ == left_in_place(opaque_alpha(), old(buf)@),
{
    convert_inplace(&Descriptor::opaque(), buf)
}

/// Converts the RGB0 pixels of `src` to RGBX pixels in `dst`: the colours stay and the fourth byte becomes 255.
pub fn rgb0_to_rgbx(src: &[u8], dst: &mut [u8]) -> (done: Result<(), SwizzleError>)
    ensures
        done == pair_verdict(src@.len() as int, old(dst)@.len() as int),
        final(dst)@ == left_in_dst(opaque_alpha(), src@, old(dst)@),
{
    convert(&Descriptor::opaque(), src, dst)
}

/// Converts BGR0 pixels to BGRX pixels where they lie: the colours stay and the fourth byte becomes 255.
pub fn bgr0_to_bgrx_inplace(buf: &mut [u8]) -> (done: Result<(), SwizzleError>)
    ensures
        done == single_verdict(old(buf)@.len() as int),
        final(buf)@ == left_in_place(opaque_alpha(), old(buf)@),
{
    convert_inplace(&Descriptor::opaque(), buf)
}

/// Converts the BGR0 pixels of `src` to BGRX pixels in `dst`: the colours stay and the fourth byte becomes 255.
pub fn bgr0_to_bgrx(src: &[u8], dst: &mut [u8]) -> (done: Result<(), SwizzleError>)
    ensures
        done == pair_verdict(src@.len() as int, old(dst)@.len() as int),
        final(dst)@ == left_in_dst(opaque_alpha(), src@, old(dst)@),
{
    convert(&Descriptor::opaque(), src, dst)
}

/// Converts RGB0 pixels to BGRX pixels where they lie: red and blue change places and the fourth byte becomes 255.
pub fn rgb0_to_bgrx_inplace(buf: &mut [u8]) -> (done: Result<(), SwizzleError>)
    ensures
        done == single_verdict(old(buf)@.len() as int),
        final(buf)@ == left_in_place(swap_red_blue_opaque(), old(buf)@),
{
    convert_inplace(&Descriptor::swap_opaque(), buf)
}

/// Converts the RGB0 pixels of `src` to BGRX pixels in `dst`: red and blue change places and the fourth byte becomes 255.
pub fn rgb0_to_bgrx(src: &[u8], dst: &mut [u8]) -> (done: Result<(), SwizzleError>)
    ensures
        done == pair_verdict(src@.len() as int, old(dst)@.len() as int),
        final(dst)@ == left_in_dst(swap_red_blue_opaque(), src@, old(dst)@),
{
    convert(&Descriptor::swap_opaque(), src, dst)
}

/// Converts BGR0 pixels to RGBX pixels where they lie: blue and red change places and the fourth byte becomes 255.
pub fn bgr0_to_rgbx_inplace(buf: &mut [u8]) -> (done: Result<(), SwizzleError>)
    ensures
        done == single_verdict(old(buf)@.len() as int),
        final(buf)@ == left_in_place(swap_red_blue_opaque(), old(buf)@),
{
    convert_inplace(&Descriptor::swap_opaque(), buf)
}

/// Converts the BGR0 pixels of `src` to RGBX pixels in `dst`: blue and red change places and the fourth byte becomes 255.
pub fn bgr0_to_rgbx(src: &[u8], dst: &mut [u8]) -> (done: Result<(), SwizzleError>)
    ensures
        done == pair_verdict(src@.len() as int, old(dst)@.len() as int),
        final(dst)@ == left_in_dst(swap_red_blue_opaque(), src@, old(dst)@),
{
    convert(&Descriptor::swap_opaque(), src, dst)
}

/// Converts 32-bit packed pixels to RGBA pixels where they lie: the four bytes of each pixel are reversed. The packed pixels are
/// taken as stored with their least significant byte first.
pub fn rgba32_to_rgba_inplace(buf: &mut [u8]) -> (done: Result<(), SwizzleError>)
    ensures
        done == single_verdict(old(buf)@.len() as int),
        final(buf)@ == left_in_place(reverse_bytes(), old(buf)@),
{
    convert_inplace(&Descriptor::reverse(), buf)
}

/// Converts the 32-bit packed pixels of `src` to RGBA pixels in `dst`: the four bytes of each pixel are reversed. The packed pixels are
/// taken as stored with their least significant byte first.
pub fn rgba32_to_rgba(src: &[u8], dst: &mut [u8]) -> (done: Result<(), SwizzleError>)
    ensures
        done == pair_verdict(src@.len() as int, old(dst)@.len() as int),
        final(dst)@ == left_in_dst(reverse_bytes(), src@, old(dst)@),
{
    convert(&Descriptor::reverse(), src, dst)
}

/// Converts 32-bit packed pixels to BGRA pixels where they lie: bytes 1 to 3 of each pixel move one place forward and byte 0 goes
/// last. The packed pixels are taken as stored with their least significant
/// byte first.
pub fn rgba32_to_bgra_inplace(buf: &mut [u8]) -> (done: Result<(), SwizzleError>)
    ensures
        done == single_verdict(old(buf)@.len() as int),
        final(buf)@ == left_in_place(rotate_front(), old(buf)@),
{
    convert_inplace(&Descriptor::rotate(), buf)
}

/// Converts the 32-bit packed pixels of `src` to BGRA pixels in `dst`: bytes 1 to 3 of each pixel move one place forward and byte 0 goes
/// last. The packed pixels are taken as stored with their least significant
/// byte first.
pub fn rgba32_to_bgra(src: &[u8], dst: &mut [u8]) -> (done: Result<(), SwizzleError>)
    ensures
        done == pair_verdict(src@.len() as int, old(dst)@.len() as int),
        final(dst)@ == left_in_dst(rotate_front(), src@, old(dst)@),
{
    convert(&Descriptor::rotate(), src, dst)
}

} // verus!
