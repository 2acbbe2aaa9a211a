//! Reading and writing whole pixels and blocks of a byte buffer.

use vstd::prelude::*;

verus! {

/// `before` with `block` written over it from byte `at` on.
pub open spec fn stored(before: Seq<u8>, at: int, block: Seq<u8>) -> Seq<u8> {
    Seq::new(
        before.len(),
        |i: int|
            if at <= i < at + block.len() {
                block[i - at]
            } else {
                before[i]
            },
    )
}

/// Reads the pixel that begins at byte `at`.
pub fn read_pixel(src: &[u8], at: usize) -> (pixel: [u8; 4])
    requires
        at + 4 <= src@.len(),
    ensures
        pixel@ == src@.subrange(at as int, at + 4),
{
    let pixel: [u8; 4] = [src[at], src[at + 1], src[at + 2], src[at + 3]];
    assert(pixel@ =~= src@.subrange(at as int, at + 4));
    pixel
}

/// Writes `pixel` over the four bytes that begin at byte `at`.
pub fn write_pixel(dst: &mut [u8], at: usize, pixel: [u8; 4])
    requires
        at + 4 <= old(dst)@.len(),
    ensures
        final(dst)@ == stored(old(dst)@, at as int, pixel@),
{
    dst[at] = pixel[0];
    dst[at + 1] = pixel[1];
    dst[at + 2] = pixel[2];
    dst[at + 3] = pixel[3];
    assert(dst@ =~= stored(old(dst)@, at as int, pixel@));
}

/// Loads into `register` as many bytes of `src`, from byte `from` on, as it
/// has lanes.
pub fn load(src: &[u8], from: usize, register: &mut Vec<u8>)
    requires
        from + old(register)@.len() <= src@.len(),
    ensures
        final(register)@ == src@.subrange(from as int, from + old(register)@.len()),
{
    let lanes: usize = register.len();
    let mut j: usize = 0;
    while j < lanes
        invariant
            register@.len() == lanes,
            lanes == old(register)@.len(),
            from + lanes <= src.len(),
            j <= lanes,
            forall|i: int| 0 <= i < j ==> register@[i] == src@[from + i],
        decreases lanes - j,
    {
        register[j] = src[from + j];
        j = j + 1;
    }
    assert(register@ =~= src@.subrange(from as int, from + lanes));
}

} // verus!
