//! What holds of every conversion, proved over the transforms.

use vstd::prelude::*;
use vstd::arithmetic::div_mod::lemma_mod_mod;
use crate::contract::{left_in_dst, left_in_place, pair_verdict, single_verdict};
use crate::descriptor::{opaque_alpha, swap_red_blue, Transform};
use crate::error::SwizzleError;
use crate::simd::{lemma_block_of, lemma_vector_byte, vector_form};

verus! {

/// Exchanging red and blue twice gives back every buffer of whole pixels:
/// RGBA to BGRA followed by BGRA to RGBA is the identity.
pub proof fn lemma_swap_twice_is_identity(buf: Seq<u8>)
    requires
        buf.len() % 4 == 0,
    ensures
        swap_red_blue().image(swap_red_blue().image(buf)) == buf,
        left_in_place(swap_red_blue(), left_in_place(swap_red_blue(), buf)) == buf,
{
    let t = swap_red_blue();
    let once = t.image(buf);
    assert forall|i: int| 0 <= i < buf.len() implies t.byte_at(once, i) == buf[i] by {
        let k = i % 4;
        assert(0 <= i - k + t.perm[k] < buf.len());
        assert((i - k + t.perm[k]) % 4 == t.perm[k]);
    }
    assert(t.image(once) =~= buf);
}

/// On a buffer of whole blocks the vector kernel's result is the scalar
/// kernel's result, byte for byte, for every valid transform and every
/// block width.
pub proof fn lemma_vector_matches_scalar(t: Transform, width: int, src: Seq<u8>, before: Seq<u8>)
    requires
        t.valid(),
        width >= 1,
        src.len() as int % (4 * width) == 0,
        before.len() == src.len(),
    ensures
        vector_form(t, width).image(src) == t.image(src),
        vector_form(t, width).image_upto(src, before, src.len() as int) == t.image_from(
            src,
            before,
            0,
        ),
{
    let form = vector_form(t, width);
    assert forall|i: int| 0 <= i < src.len() implies form.byte_at(src, i) == t.byte_at(src, i) by {
        lemma_block_of(i, src.len() as int, 4 * width);
        lemma_vector_byte(t, width, src, i);
    }
    assert(form.image(src) =~= t.image(src));
    assert(form.image_upto(src, before, src.len() as int) =~= t.image_from(src, before, 0));
}

/// The vector kernel over the whole blocks below `end` followed by the
/// scalar kernel from `end` on leaves what the scalar kernel alone leaves:
/// the two backends cannot be told apart.
pub proof fn lemma_blocks_then_pixels(
    t: Transform,
    width: int,
    src: Seq<u8>,
    before: Seq<u8>,
    end: int,
)
    requires
        t.valid(),
        width >= 1,
        before.len() == src.len(),
        0 <= end <= src.len(),
        end % (4 * width) == 0,
    ensures
        t.image_from(src, vector_form(t, width).image_upto(src, before, end), end) == t.image(
            src,
        ),
        t.image_from(src, before, 0) == t.image(src),
{
    let form = vector_form(t, width);
    let mid = form.image_upto(src, before, end);
    assert forall|i: int| 0 <= i < end implies mid[i] == t.byte_at(src, i) by {
        lemma_block_of(i, end, 4 * width);
        lemma_vector_byte(t, width, src, i);
    }
    assert(t.image_from(src, mid, end) =~= t.image(src));
    assert(t.image_from(src, before, 0) =~= t.image(src));
}

/// The same where the buffer is converted where it lies: the pixels behind
/// the last whole block are read as the vector kernel left them, which is as
/// they were.
pub proof fn lemma_blocks_then_pixels_inplace(t: Transform, width: int, buf: Seq<u8>, end: int)
    requires
        t.valid(),
        width >= 1,
        buf.len() % 4 == 0,
        0 <= end <= buf.len(),
        end % (4 * width) == 0,
    ensures
        ({
            let mid = vector_form(t, width).image_upto(buf, buf, end);
            t.image_from(mid, mid, end) == t.image(buf)
        }),
        t.image_from(buf, buf, 0) == t.image(buf),
{
    let form = vector_form(t, width);
    let mid = form.image_upto(buf, buf, end);
    lemma_mod_mod(end, 4, width);
    assert(end % 4 == 0);
    assert forall|i: int| 0 <= i < buf.len() implies t.image_from(mid, mid, end)[i] == t.byte_at(
        buf,
        i,
    ) by {
        if i < end {
            lemma_block_of(i, end, 4 * width);
            lemma_vector_byte(t, width, buf, i);
        } else {
            let k = i % 4;
            assert(0 <= t.perm[k] < 4);
            assert(end <= i - k + t.perm[k] < buf.len());
        }
    }
    assert(t.image_from(mid, mid, end) =~= t.image(buf));
    assert(t.image_from(buf, buf, 0) =~= t.image(buf));
}

/// Converting a buffer in place and converting the same content into another
/// buffer of its length give the same verdict and, where the length is
/// accepted, leave the same bytes.
pub proof fn lemma_inplace_matches_two_buffer(t: Transform, content: Seq<u8>, out: Seq<u8>)
    requires
        out.len() == content.len(),
    ensures
        single_verdict(content.len() as int) == pair_verdict(
            content.len() as int,
            out.len() as int,
        ),
        content.len() % 4 == 0 ==> left_in_place(t, content) == left_in_dst(t, content, out),
{
}

/// Making the fourth byte opaque keeps bytes 0 to 2 of every pixel and sets
/// byte 3 to 255, whatever it was.
pub proof fn lemma_opaque_keeps_colours(buf: Seq<u8>, i: int)
    requires
        0 <= i < buf.len(),
    ensures
        opaque_alpha().image(buf)[i] == (if i % 4 == 3 {
            255u8
        } else {
            buf[i]
        }),
{
}

/// A buffer that is no whole number of pixels is refused as of invalid
/// length in both call forms, and nothing is written.
pub proof fn lemma_partial_pixel_is_refused(t: Transform, buf: Seq<u8>, dst: Seq<u8>)
    requires
        buf.len() % 4 != 0,
    ensures
        single_verdict(buf.len() as int) == Err::<(), SwizzleError>(SwizzleError::InvalidLength),
        pair_verdict(buf.len() as int, dst.len() as int) == Err::<(), SwizzleError>(
            SwizzleError::InvalidLength,
        ),
        left_in_place(t, buf) == buf,
        left_in_dst(t, buf, dst) == dst,
{
}

/// A destination that is not as long as a source of whole pixels is refused
/// as a length mismatch, and nothing is written.
pub proof fn lemma_other_length_is_refused(t: Transform, src: Seq<u8>, dst: Seq<u8>)
    requires
        src.len() % 4 == 0,
        dst.len() != src.len(),
    ensures
        pair_verdict(src.len() as int, dst.len() as int) == Err::<(), SwizzleError>(
            SwizzleError::LengthMismatch,
        ),
        left_in_dst(t, src, dst) == dst,
{
}

} // verus!
