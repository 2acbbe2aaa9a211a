//! The scalar kernel: one pixel per step.
//!
//! It converts any whole number of pixels, so it serves both as the handler
//! of what is left after the last full vector block and as a complete
//! backend of its own.

use vstd::prelude::*;
use crate::buffer::{read_pixel, write_pixel};
use crate::contract::{
    left_in_dst,
    left_in_place,
    pair_verdict,
    single_verdict,
    validate_pair,
    validate_single,
};
use crate::descriptor::{
    opaque_alpha,
    reverse_bytes,
    rotate_front,
    swap_red_blue,
    swap_red_blue_opaque,
    transform_of,
    Descriptor,
    Fill,
    Transform,
};
use crate::error::SwizzleError;

verus! {

/// Reorders the channels of one pixel by `order` and then applies `fill`.
fn permute_fill(order: &[usize; 4], fill: Option<Fill>, pixel: [u8; 4]) -> (out: [u8; 4])
    requires
        transform_of(Some(*order), fill).valid(),
    ensures
        out@ == transform_of(Some(*order), fill).image(pixel@),
{
    let ghost t = transform_of(Some(*order), fill);
    assert(forall|k: int| 0 <= k < 4 ==> #[trigger] t.perm[k] == order@[k]);
    assert(t.perm[0] < 4 && t.perm[1] < 4 && t.perm[2] < 4 && t.perm[3] < 4);
    let mut out: [u8; 4] = [pixel[order[0]], pixel[order[1]], pixel[order[2]], pixel[order[3]]];
    match fill {
        Some(f) => {
            out[f.index] = f.value;
        },
        None => {},
    }
    assert(out@ =~= t.image(pixel@));
    out
}

/// Converts one pixel.
pub fn convert_pixel(desc: &Descriptor, pixel: [u8; 4]) -> (out: [u8; 4])
    ensures
        out@ == desc@.image(pixel@),
{
    let order: [usize; 4] = desc.order();
    let fill: Option<Fill> = desc.fill();
    proof {
        lemma_resolved(desc@, order, fill);
    }
    permute_fill(&order, fill, pixel)
}

/// Converts the pixels of `src` from byte `start` on into `dst`, and leaves
/// the bytes of `dst` below `start` as they are.
pub fn scalar_kernel(desc: &Descriptor, src: &[u8], dst: &mut [u8], start: usize)
    requires
        src@.len() % 4 == 0,
        old(dst)@.len() == src@.len(),
        start % 4 == 0,
        start <= src@.len(),
    ensures
        final(dst)@ == desc@.image_from(src@, old(dst)@, start as int),
{
    let len: usize = src.len();
    let order: [usize; 4] = desc.order();
    let fill: Option<Fill> = desc.fill();
    proof {
        lemma_resolved(desc@, order, fill);
    }
    let mut i: usize = start;
    while i < len
        invariant
            len == src@.len(),
            dst@.len() == len,
            len % 4 == 0,
            i % 4 == 0,
            start <= i <= len,
            desc@.valid(),
            desc@ == transform_of(Some(order), fill),
            forall|j: int| 0 <= j < start ==> dst@[j] == old(dst)@[j],
            forall|j: int| start <= j < i ==> dst@[j] == desc@.byte_at(src@, j),
        decreases len - i,
    {
        let pixel: [u8; 4] = read_pixel(src, i);
        let out: [u8; 4] = permute_fill(&order, fill, pixel);
        proof {
            lemma_pixel_of_buffer(desc@, src@, pixel@, i as int);
        }
        write_pixel(dst, i, out);
        i = i + 4;
    }
    assert(dst@ =~= desc@.image_from(src@, old(dst)@, start as int));
}

/// Converts the pixels of `buf` from byte `start` on where they lie, and
/// leaves the bytes below `start` as they are. Each pixel is read whole
/// before any of its bytes is written.
pub fn scalar_kernel_inplace(desc: &Descriptor, buf: &mut [u8], start: usize)
    requires
        old(buf)@.len() % 4 == 0,
        start % 4 == 0,
        start <= old(buf)@.len(),
    ensures
        final(buf)@ == desc@.image_from(old(buf)@, old(buf)@, start as int),
{
    let len: usize = buf.len();
    let order: [usize; 4] = desc.order();
    let fill: Option<Fill> = desc.fill();
    proof {
        lemma_resolved(desc@, order, fill);
    }
    let mut i: usize = start;
    while i < len
        invariant
            len == old(buf)@.len(),
            buf@.len() == len,
            len % 4 == 0,
            i % 4 == 0,
            start <= i <= len,
            desc@.valid(),
            desc@ == transform_of(Some(order), fill),
            forall|j: int| 0 <= j < start ==> buf@[j] == old(buf)@[j],
            forall|j: int| start <= j < i ==> buf@[j] == desc@.byte_at(old(buf)@, j),
            forall|j: int| i <= j < len ==> buf@[j] == old(buf)@[j],
        decreases len - i,
    {
        let pixel: [u8; 4] = read_pixel(buf, i);
        let out: [u8; 4] = permute_fill(&order, fill, pixel);
        proof {
            assert(pixel@ =~= old(buf)@.subrange(i as int, i + 4));
            lemma_pixel_of_buffer(desc@, old(buf)@, pixel@, i as int);
        }
        write_pixel(buf, i, out);
        i = i + 4;
    }
    assert(buf@ =~= desc@.image_from(old(buf)@, old(buf)@, start as int));
}

/// Converts `src` into `dst`, one pixel at a time.
pub fn convert(desc: &Descriptor, src: &[u8], dst: &mut [u8]) -> (done: Result<(), SwizzleError>)
    ensures
        done == pair_verdict(src@.len() as int, old(dst)@.len() as int),
        final(dst)@ == left_in_dst(desc@, src@, old(dst)@),
{
    match validate_pair(src, dst) {
        Err(e) => Err(e),
        Ok(()) => {
            scalar_kernel(desc, src, dst, 0);
            assert(dst@ =~= desc@.image(src@));
            Ok(())
        },
    }
}

/// Converts `buf` where it lies, one pixel at a time.
pub fn convert_inplace(desc: &Descriptor, buf: &mut [u8]) -> (done: Result<(), SwizzleError>)
    ensures
        done == single_verdict(old(buf)@.len() as int),
        final(buf)@ == left_in_place(desc@, old(buf)@),
{
    match validate_single(buf) {
        Err(e) => Err(e),
        Ok(()) => {
            scalar_kernel_inplace(desc, buf, 0);
            assert(buf@ =~= desc@.image(old(buf)@));
            Ok(())
        },
    }
}

/// Converts RGBA to BGRA where the pixels lie, one pixel at a time.
pub fn rgba_to_bgra_inplace(buf: &mut [u8]) -> (done: Result<(), SwizzleError>)
    ensures
        done == single_verdict(old(buf)@.len() as int),
        final(buf)@ == left_in_place(swap_red_blue(), old(buf)@),
{
    convert_inplace(&Descriptor::swap(), buf)
}

/// Converts the RGBA pixels of `src` to BGRA pixels in `dst`, one pixel at a time.
pub fn rgba_to_bgra(src: &[u8], dst: &mut [u8]) -> (done: Result<(), SwizzleError>)
    ensures
        done == pair_verdict(src@.len() as int, old(dst)@.len() as int),
        final(dst)@ == left_in_dst(swap_red_blue(), src@, old(dst)@),
{
    convert(&Descriptor::swap(), src, dst)
}

/// Converts BGRA to RGBA where the pixels lie, one pixel at a time.
pub fn bgra_to_rgba_inplace(buf: &mut [u8]) -> (done: Result<(), SwizzleError>)
    ensures
        done == single_verdict(old(buf)@.len() as int),
        final(buf)@ == left_in_place(swap_red_blue(), old(buf)@),
{
    convert_inplace(&Descriptor::swap(), buf)
}

/// Converts the BGRA pixels of `src` to RGBA pixels in `dst`, one pixel at a time.
pub fn bgra_to_rgba(src: &[u8], dst: &mut [u8]) -> (done: Result<(), SwizzleError>)
    ensures
        done == pair_verdict(src@.len() as int, old(dst)@.len() as int),
        final(dst)@ == left_in_dst(swap_red_blue(), src@, old(dst)@),
{
    convert(&Descriptor::swap(), src, dst)
}

/// Converts RGB0 to RGBX where the pixels lie, one pixel at a time.
pub fn rgb0_to_rgbx_inplace(buf: &mut [u8]) -> (done: Result<(), SwizzleError>)
    ensures
        done == single_verdict(old(buf)@.len() as int),
        final(buf)@ == left_in_place(opaque_alpha(), old(buf)@),
{
    convert_inplace(&Descriptor::opaque(), buf)
}

/// Converts the RGB0 pixels of `src` to RGBX pixels in `dst`, one pixel at a time.
pub fn rgb0_to_rgbx(src: &[u8], dst: &mut [u8]) -> (done: Result<(), SwizzleError>)
    ensures
        done == pair_verdict(src@.len() as int, old(dst)@.len() as int),
        final(dst)@ == left_in_dst(opaque_alpha(), src@, old(dst)@),
{
    convert(&Descriptor::opaque(), src, dst)
}

/// Converts BGR0 to BGRX where the pixels lie, one pixel at a time.
pub fn bgr0_to_bgrx_inplace(buf: &mut [u8]) -> (done: Result<(), SwizzleError>)
    ensures
        done == single_verdict(old(buf)@.len() as int),
        final(buf)@ == left_in_place(opaque_alpha(), old(buf)@),
{
    convert_inplace(&Descriptor::opaque(), buf)
}

/// Converts the BGR0 pixels of `src` to BGRX pixels in `dst`, one pixel at a time.
pub fn bgr0_to_bgrx(src: &[u8], dst: &mut [u8]) -> (done: Result<(), SwizzleError>)
    ensures
        done == pair_verdict(src@.len() as int, old(dst)@.len() as int),
        final(dst)@ == left_in_dst(opaque_alpha(), src@, old(dst)@),
{
    convert(&Descriptor::opaque(), src, dst)
}

/// Converts RGB0 to BGRX where the pixels lie, one pixel at a time.
pub fn rgb0_to_bgrx_inplace(buf: &mut [u8]) -> (done: Result<(), SwizzleError>)
    ensures
        done == single_verdict(old(buf)@.len() as int),
        final(buf)@ == left_in_place(swap_red_blue_opaque(), old(buf)@),
{
    convert_inplace(&Descriptor::swap_opaque(), buf)
}

/// Converts the RGB0 pixels of `src` to BGRX pixels in `dst`, one pixel at a time.
pub fn rgb0_to_bgrx(src: &[u8], dst: &mut [u8]) -> (done: Result<(), SwizzleError>)
    ensures
        done == pair_verdict(src@.len() as int, old(dst)@.len() as int),
        final(dst)@ == left_in_dst(swap_red_blue_opaque(), src@, old(dst)@),
{
    convert(&Descriptor::swap_opaque(), src, dst)
}

/// Converts BGR0 to RGBX where the pixels lie, one pixel at a time.
pub fn bgr0_to_rgbx_inplace(buf: &mut [u8]) -> (done: Result<(), SwizzleError>)
    ensures
        done == single_verdict(old(buf)@.len() as int),
        final(buf)@ == left_in_place(swap_red_blue_opaque(), old(buf)@),
{
    convert_inplace(&Descriptor::swap_opaque(), buf)
}

/// Converts the BGR0 pixels of `src` to RGBX pixels in `dst`, one pixel at a time.
pub fn bgr0_to_rgbx(src: &[u8], dst: &mut [u8]) -> (done: Result<(), SwizzleError>)
    ensures
        done == pair_verdict(src@.len() as int, old(dst)@.len() as int),
        final(dst)@ == left_in_dst(swap_red_blue_opaque(), src@, old(dst)@),
{
    convert(&Descriptor::swap_opaque(), src, dst)
}

/// Converts 32-bit packed pixels, stored least significant byte first, to
/// RGBA where the pixels lie, one pixel at a time.
pub fn rgba32_to_rgba_inplace(buf: &mut [u8]) -> (done: Result<(), SwizzleError>)
    ensures
        done == single_verdict(old(buf)@.len() as int),
        final(buf)@ == left_in_place(reverse_bytes(), old(buf)@),
{
    convert_inplace(&Descriptor::reverse(), buf)
}

/// Converts the 32-bit packed pixels of `src`, stored least significant byte
/// first, to RGBA pixels in `dst`, one pixel at a time.
pub fn rgba32_to_rgba(src: &[u8], dst: &mut [u8]) -> (done: Result<(), SwizzleError>)
    ensures
        done == pair_verdict(src@.len() as int, old(dst)@.len() as int),
        final(dst)@ == left_in_dst(reverse_bytes(), src@, old(dst)@),
{
    convert(&Descriptor::reverse(), src, dst)
}

/// Converts 32-bit packed pixels, stored least significant byte first, to
/// BGRA where the pixels lie, one pixel at a time.
pub fn rgba32_to_bgra_inplace(buf: &mut [u8]) -> (done: Result<(), SwizzleError>)
    ensures
        done == single_verdict(old(buf)@.len() as int),
        final(buf)@ == left_in_place(rotate_front(), old(buf)@),
{
    convert_inplace(&Descriptor::rotate(), buf)
}

/// Converts the 32-bit packed pixels of `src`, stored least significant byte
/// first, to BGRA pixels in `dst`, one pixel at a time.
pub fn rgba32_to_bgra(src: &[u8], dst: &mut [u8]) -> (done: Result<(), SwizzleError>)
    ensures
        done == pair_verdict(src@.len() as int, old(dst)@.len() as int),
        final(dst)@ == left_in_dst(rotate_front(), src@, old(dst)@),
{
    convert(&Descriptor::rotate(), src, dst)
}

/// A descriptor is the transform of its resolved order and its fill.
proof fn lemma_resolved(t: Transform, order: [usize; 4], fill: Option<Fill>)
    requires
        t.valid(),
        forall|k: int| 0 <= k < 4 ==> #[trigger] order@[k] == t.perm[k],
        t.fill == (match fill {
            Some(x) => Some((x.index as int, x.value)),
            None => None,
        }),
    ensures
        t == transform_of(Some(order), fill),
{
    assert(t.perm =~= transform_of(Some(order), fill).perm);
}

/// A pixel converted by itself is the pixel's place in the converted buffer.
pub proof fn lemma_pixel_of_buffer(t: Transform, src: Seq<u8>, pixel: Seq<u8>, base: int)
    requires
        t.valid(),
        base % 4 == 0,
        0 <= base,
        base + 4 <= src.len(),
        pixel == src.subrange(base, base + 4),
    ensures
        forall|k: int| 0 <= k < 4 ==> #[trigger] t.image(pixel)[k] == t.byte_at(src, base + k),
{
    assert forall|k: int| 0 <= k < 4 implies #[trigger] t.image(pixel)[k] == t.byte_at(
        src,
        base + k,
    ) by {
        assert((base + k) % 4 == k);
        assert(0 <= t.perm[k] < 4);
    }
}

} // verus!
