//! The vector kernel: a block of `W` pixels per step.
//!
//! A block is handled as one register of `4 * W` byte lanes. The lane tables
//! of a descriptor are generated from its per-pixel pattern for any `W`, and
//! the kernel applies them to each block independently: a lane shuffle, then
//! a select between the shuffled bytes and a constant register.

use vstd::prelude::*;
use vstd::arithmetic::div_mod::{
    lemma_fundamental_div_mod,
    lemma_fundamental_div_mod_converse,
    lemma_mod_decreases,
    lemma_mod_mod,
    lemma_mod_multiples_basic,
    lemma_mod_pos_bound,
};
use vstd::arithmetic::mul::lemma_mul_is_commutative;
use crate::buffer::{load, stored};
use crate::contract::{
    left_in_dst,
    left_in_place,
    pair_verdict,
    single_verdict,
    validate_pair,
    validate_single,
};
use crate::descriptor::{
    opaque_alpha,
    swap_red_blue,
    swap_red_blue_opaque,
    Descriptor,
    Fill,
    Transform,
};
use crate::error::SwizzleError;
use crate::laws::{lemma_blocks_then_pixels, lemma_blocks_then_pixels_inplace};
use crate::sisd::{scalar_kernel, scalar_kernel_inplace};

verus! {

/// Pixels per vector block in the named conversions.
pub const VECTOR_WIDTH: usize = 4;

/// The lane tables of a descriptor, mathematically.
pub struct VectorForm {
    /// Pixels per block.
    pub width: int,
    /// `idxs[j]` is the lane of the loaded block that lane `j` is read from.
    pub idxs: Seq<int>,
    /// `keep[j]` holds where lane `j` keeps the shuffled byte.
    pub keep: Seq<bool>,
    /// `constant[j]` is what lane `j` receives where `keep[j]` does not hold.
    pub constant: Seq<u8>,
}

impl VectorForm {
    /// Byte lanes per block.
    pub open spec fn lanes(self) -> int {
        4 * self.width
    }

    /// Lane `j` of the result for one loaded block.
    pub open spec fn lane(self, block: Seq<u8>, j: int) -> u8 {
        if self.keep[j] {
            block[self.idxs[j]]
        } else {
            self.constant[j]
        }
    }

    /// The result for one loaded block.
    pub open spec fn block_image(self, block: Seq<u8>) -> Seq<u8> {
        Seq::new(self.lanes() as nat, |j: int| self.lane(block, j))
    }

    /// Byte `i` of the converted buffer: its lane in the image of its block.
    pub open spec fn byte_at(self, src: Seq<u8>, i: int) -> u8 {
        let j = i % self.lanes();
        self.lane(src.subrange(i - j, i - j + self.lanes()), j)
    }

    /// The converted buffer, for a source that is a whole number of blocks.
    pub open spec fn image(self, src: Seq<u8>) -> Seq<u8> {
        Seq::new(src.len(), |i: int| self.byte_at(src, i))
    }

    /// A buffer that holds the converted bytes of `src` below `end` and
    /// `before` from `end` on.
    pub open spec fn image_upto(self, src: Seq<u8>, before: Seq<u8>, end: int) -> Seq<u8> {
        Seq::new(
            src.len(),
            |i: int|
                if i < end {
                    self.byte_at(src, i)
                } else {
                    before[i]
                },
        )
    }
}

/// The lane tables of `t` for blocks of `width` pixels: the per-pixel pattern
/// repeated `width` times, four lanes apart.
pub open spec fn vector_form(t: Transform, width: int) -> VectorForm {
    VectorForm {
        width,
        idxs: Seq::new((4 * width) as nat, |j: int| 4 * (j / 4) + t.perm[j % 4]),
        keep: Seq::new((4 * width) as nat, |j: int| t.keeps(j % 4)),
        constant: Seq::new(
            (4 * width) as nat,
            |j: int|
                if t.keeps(j % 4) {
                    0u8
                } else {
                    t.constant()
                },
        ),
    }
}

/// A table of lane indexes as mathematical integers.
pub open spec fn lane_indexes(idxs: Seq<usize>) -> Seq<int> {
    Seq::new(idxs.len(), |j: int| idxs[j] as int)
}

/// The lane tables of one descriptor for one block width, ready for use.
pub struct VectorTable {
    desc: Descriptor,
    width: usize,
    idxs: Vec<usize>,
    keep: Vec<bool>,
    constant: Vec<u8>,
}

impl View for VectorTable {
    type V = VectorForm;

    closed spec fn view(&self) -> VectorForm {
        VectorForm {
            width: self.width as int,
            idxs: lane_indexes(self.idxs@),
            keep: self.keep@,
            constant: self.constant@,
        }
    }
}

impl VectorTable {
    /// The transform that the tables were generated from.
    pub closed spec fn transform(&self) -> Transform {
        self.desc@
    }

    #[verifier::type_invariant]
    closed spec fn inv(self) -> bool {
        &&& self.desc@.valid()
        &&& 1 <= self.width
        &&& 4 * self.width <= usize::MAX
        &&& self@ == vector_form(self.desc@, self.width as int)
    }

    /// Generates the tables of `desc` for blocks of `width` pixels. There are
    /// none for a width of 0, nor for one whose lanes cannot be counted.
    pub fn new(desc: &Descriptor, width: usize) -> (made: Option<VectorTable>)
        ensures
            made is Some <==> 1 <= width && 4 * width <= usize::MAX,
            made is Some ==> made.unwrap().transform() == desc@ && made.unwrap()@ == vector_form(
                desc@,
                width as int,
            ),
    {
        if width == 0 || width > usize::MAX / 4 {
            None
        } else {
            Some(VectorTable::generate(desc, width))
        }
    }

    /// Generates the tables of `desc` for blocks of [`VECTOR_WIDTH`] pixels.
    pub fn standard(desc: &Descriptor) -> (table: VectorTable)
        ensures
            table.transform() == desc@,
            table@ == vector_form(desc@, VECTOR_WIDTH as int),
    {
        VectorTable::generate(desc, VECTOR_WIDTH)
    }

    /// Repeats the per-pixel pattern of `desc` over `width` pixels.
    fn generate(desc: &Descriptor, width: usize) -> (table: VectorTable)
        requires
            1 <= width,
            4 * width <= usize::MAX,
        ensures
            table.transform() == desc@,
            table@ == vector_form(desc@, width as int),
    {
        let lanes: usize = 4 * width;
        let order: [usize; 4] = desc.order();
        let fill: Option<Fill> = desc.fill();
        let mut idxs: Vec<usize> = Vec::new();
        let mut keep: Vec<bool> = Vec::new();
        let mut constant: Vec<u8> = Vec::new();
        let ghost form = vector_form(desc@, width as int);
        let mut j: usize = 0;
        while j < lanes
            invariant
                lanes == 4 * width,
                j <= lanes,
                j % 4 == 0,
                desc@.valid(),
                form == vector_form(desc@, width as int),
                forall|k: int| 0 <= k < 4 ==> #[trigger] order@[k] == desc@.perm[k],
                desc@.fill == (match fill {
                    Some(x) => Some((x.index as int, x.value)),
                    None => None,
                }),
                idxs@.len() == j,
                keep@.len() == j,
                constant@.len() == j,
                forall|i: int| 0 <= i < j ==> #[trigger] idxs@[i] == form.idxs[i],
                forall|i: int| 0 <= i < j ==> #[trigger] keep@[i] == form.keep[i],
                forall|i: int| 0 <= i < j ==> #[trigger] constant@[i] == form.constant[i],
            decreases lanes - j,
        {
            let mut k: usize = 0;
            while k < 4
                invariant
                    lanes == 4 * width,
                    j + 4 <= lanes,
                    j % 4 == 0,
                    k <= 4,
                    desc@.valid(),
                    form == vector_form(desc@, width as int),
                    forall|k: int| 0 <= k < 4 ==> #[trigger] order@[k] == desc@.perm[k],
                    desc@.fill == (match fill {
                        Some(x) => Some((x.index as int, x.value)),
                        None => None,
                    }),
                    idxs@.len() == j + k,
                    keep@.len() == j + k,
                    constant@.len() == j + k,
                    forall|i: int| 0 <= i < j + k ==> #[trigger] idxs@[i] == form.idxs[i],
                    forall|i: int| 0 <= i < j + k ==> #[trigger] keep@[i] == form.keep[i],
                    forall|i: int| 0 <= i < j + k ==> #[trigger] constant@[i] == form.constant[i],
                decreases 4 - k,
            {
                proof {
                    assert((j + k) % 4 == k);
                    assert((j + k) / 4 == j / 4);
                    assert(4 * (j / 4) == j);
                    assert(0 <= desc@.perm[k as int] < 4);
                }
                let kept: bool = match fill {
                    Some(f) => f.index != k,
                    None => true,
                };
                let value: u8 = match fill {
                    Some(f) => if f.index == k {
                        f.value
                    } else {
                        0
                    },
                    None => 0,
                };
                idxs.push(j + order[k]);
                keep.push(kept);
                constant.push(value);
                k = k + 1;
            }
            j = j + 4;
        }
        proof {
            assert(lane_indexes(idxs@) =~= form.idxs);
            assert(keep@ =~= form.keep);
            assert(constant@ =~= form.constant);
        }
        VectorTable { desc: *desc, width, idxs, keep, constant }
    }

    /// Byte lanes per block.
    pub fn lanes(&self) -> (n: usize)
        ensures
            n == self@.lanes(),
            n >= 4,
            self@ == vector_form(self.transform(), self@.width),
            self.transform().valid(),
    {
        proof {
            use_type_invariant(self);
        }
        4 * self.width
    }

    /// The shuffle table: entry `j` is the lane of a loaded block that lane
    /// `j` of the result is read from.
    pub fn indexes(&self) -> (idxs: &[usize])
        ensures
            lane_indexes(idxs@) == self@.idxs,
    {
        self.idxs.as_slice()
    }

    /// The select mask: entry `j` holds where lane `j` keeps the shuffled
    /// byte.
    pub fn mask(&self) -> (keep: &[bool])
        ensures
            keep@ == self@.keep,
    {
        self.keep.as_slice()
    }

    /// The constant register: entry `j` is what lane `j` receives where the
    /// mask does not hold.
    pub fn constants(&self) -> (constant: &[u8])
        ensures
            constant@ == self@.constant,
    {
        self.constant.as_slice()
    }

    /// The descriptor that the tables were generated from.
    pub fn descriptor(&self) -> (desc: Descriptor)
        ensures
            desc@ == self.transform(),
    {
        self.desc
    }

    /// Shuffles and selects the block that `block` holds from byte `from` on
    /// and stores the result in `dst` from byte `at` on.
    pub fn apply_block(&self, block: &[u8], from: usize, dst: &mut [u8], at: usize)
        requires
            from + self@.lanes() <= block@.len(),
            at + self@.lanes() <= old(dst)@.len(),
        ensures
            final(dst)@ == stored(
                old(dst)@,
                at as int,
                self@.block_image(block@.subrange(from as int, from + self@.lanes())),
            ),
    {
        let lanes: usize = self.lanes();
        let ghost loaded = block@.subrange(from as int, from + lanes);
        let mut j: usize = 0;
        while j < lanes
            invariant
                lanes == self@.lanes(),
                self@ == vector_form(self.transform(), self@.width),
                self.transform().valid(),
                self@.width >= 1,
                j <= lanes,
                from + lanes <= block.len(),
                at + lanes <= dst.len(),
                dst@.len() == old(dst)@.len(),
                loaded == block@.subrange(from as int, from + lanes),
                forall|i: int| at <= i < at + j ==> dst@[i] == self@.lane(loaded, i - at),
                forall|i: int| 0 <= i < dst@.len() && !(at <= i < at + j) ==> dst@[i] == old(dst)@[i],
            decreases lanes - j,
        {
            proof {
                lemma_lane_index(self.transform(), self@.width, j as int);
                assert(self@.idxs.len() == self.idxs@.len());
                assert(self@.idxs[j as int] == self.idxs@[j as int]);
                assert(self@.keep.len() == lanes && self@.constant.len() == lanes);
            }
            let byte: u8 = if self.keep[j] {
                block[from + self.idxs[j]]
            } else {
                self.constant[j]
            };
            dst[at + j] = byte;
            j = j + 1;
        }
        assert(dst@ =~= stored(old(dst)@, at as int, self@.block_image(loaded)));
    }

    /// Converts `src` into `dst`: whole blocks by the vector kernel, the
    /// pixels after the last whole block by the scalar kernel.
    pub fn convert(&self, src: &[u8], dst: &mut [u8]) -> (done: Result<(), SwizzleError>)
        ensures
            done == pair_verdict(src@.len() as int, old(dst)@.len() as int),
            final(dst)@ == left_in_dst(self.transform(), src@, old(dst)@),
    {
        match validate_pair(src, dst) {
            Err(e) => Err(e),
            Ok(()) => {
                let lanes: usize = self.lanes();
                let end: usize = block_prefix(src.len(), lanes);
                proof {
                    lemma_prefix_is_pixels(src@.len() as int, self@.width);
                }
                vector_kernel(self, src, dst, end);
                scalar_kernel(&self.desc, src, dst, end);
                proof {
                    lemma_blocks_then_pixels(
                        self.transform(),
                        self@.width,
                        src@,
                        old(dst)@,
                        end as int,
                    );
                }
                Ok(())
            },
        }
    }

    /// Converts `buf` where it lies: whole blocks by the vector kernel, the
    /// pixels after the last whole block by the scalar kernel.
    pub fn convert_inplace(&self, buf: &mut [u8]) -> (done: Result<(), SwizzleError>)
        ensures
            done == single_verdict(old(buf)@.len() as int),
            final(buf)@ == left_in_place(self.transform(), old(buf)@),
    {
        match validate_single(buf) {
            Err(e) => Err(e),
            Ok(()) => {
                let lanes: usize = self.lanes();
                let end: usize = block_prefix(buf.len(), lanes);
                proof {
                    lemma_prefix_is_pixels(buf@.len() as int, self@.width);
                }
                vector_kernel_inplace(self, buf, end);
                scalar_kernel_inplace(&self.desc, buf, end);
                proof {
                    lemma_blocks_then_pixels_inplace(
                        self.transform(),
                        self@.width,
                        old(buf)@,
                        end as int,
                    );
                }
                Ok(())
            },
        }
    }
}

/// The length of the longest prefix of `len` bytes that is a whole number of
/// blocks of `lanes` bytes.
pub fn block_prefix(len: usize, lanes: usize) -> (end: usize)
    requires
        lanes > 0,
    ensures
        end == len - len % lanes,
        end % lanes == 0,
        end <= len,
        len - end < lanes,
{
    proof {
        lemma_fundamental_div_mod(len as int, lanes as int);
        lemma_mod_pos_bound(len as int, lanes as int);
        lemma_mod_multiples_basic(len as int / lanes as int, lanes as int);
        lemma_mul_is_commutative(len as int / lanes as int, lanes as int);
    }
    len - len % lanes
}

/// Converts the blocks of `src` below byte `end` into `dst`, and leaves the
/// bytes of `dst` from `end` on as they are.
pub fn vector_kernel(table: &VectorTable, src: &[u8], dst: &mut [u8], end: usize)
    requires
        old(dst)@.len() == src@.len(),
        end <= src@.len(),
        end as int % table@.lanes() == 0,
    ensures
        final(dst)@ == table@.image_upto(src@, old(dst)@, end as int),
{
    let lanes: usize = table.lanes();
    let mut base: usize = 0;
    while base < end
        invariant
            lanes == table@.lanes(),
            lanes >= 4,
            base <= end <= src@.len(),
            base % lanes == 0,
            end % lanes == 0,
            dst@.len() == src@.len(),
            forall|i: int| 0 <= i < base ==> dst@[i] == table@.byte_at(src@, i),
            forall|i: int| base <= i < dst@.len() ==> dst@[i] == old(dst)@[i],
        decreases end - base,
    {
        proof {
            lemma_next_block(base as int, end as int, lanes as int);
        }
        let ghost before = dst@;
        table.apply_block(src, base, dst, base);
        proof {
            assert forall|i: int| base <= i < base + lanes implies dst@[i] == table@.byte_at(
                src@,
                i,
            ) by {
                lemma_lane_of(base as int, i - base, lanes as int);
            }
        }
        base = base + lanes;
    }
    assert(dst@ =~= table@.image_upto(src@, old(dst)@, end as int));
}

/// Converts the blocks of `buf` below byte `end` where they lie, and leaves
/// the bytes from `end` on as they are. Each block is loaded whole into a
/// register before any of its bytes is written.
pub fn vector_kernel_inplace(table: &VectorTable, buf: &mut [u8], end: usize)
    requires
        end <= old(buf)@.len(),
        end as int % table@.lanes() == 0,
    ensures
        final(buf)@ == table@.image_upto(old(buf)@, old(buf)@, end as int),
{
    let lanes: usize = table.lanes();
    let mut register: Vec<u8> = vec![0u8; lanes];
    let mut base: usize = 0;
    while base < end
        invariant
            lanes == table@.lanes(),
            lanes >= 4,
            register@.len() == lanes,
            base <= end <= buf@.len(),
            base % lanes == 0,
            end % lanes == 0,
            buf@.len() == old(buf)@.len(),
            forall|i: int| 0 <= i < base ==> buf@[i] == table@.byte_at(old(buf)@, i),
            forall|i: int| base <= i < buf@.len() ==> buf@[i] == old(buf)@[i],
        decreases end - base,
    {
        proof {
            lemma_next_block(base as int, end as int, lanes as int);
        }
        load(buf, base, &mut register);
        proof {
            assert(register@ =~= old(buf)@.subrange(base as int, base + lanes));
            assert(register@.subrange(0, lanes as int) =~= register@);
        }
        table.apply_block(register.as_slice(), 0, buf, base);
        proof {
            assert forall|i: int| base <= i < base + lanes implies buf@[i] == table@.byte_at(
                old(buf)@,
                i,
            ) by {
                lemma_lane_of(base as int, i - base, lanes as int);
            }
        }
        base = base + lanes;
    }
    assert(buf@ =~= table@.image_upto(old(buf)@, old(buf)@, end as int));
}

/// Converts `src` into `dst` in blocks of [`VECTOR_WIDTH`] pixels.
pub fn convert(desc: &Descriptor, src: &[u8], dst: &mut [u8]) -> (done: Result<(), SwizzleError>)
    ensures
        done == pair_verdict(src@.len() as int, old(dst)@.len() as int),
        final(dst)@ == left_in_dst(desc@, src@, old(dst)@),
{
    VectorTable::standard(desc).convert(src, dst)
}

/// Converts `buf` where it lies in blocks of [`VECTOR_WIDTH`] pixels.
pub fn convert_inplace(desc: &Descriptor, buf: &mut [u8]) -> (done: Result<(), SwizzleError>)
    ensures
        done == single_verdict(old(buf)@.len() as int),
        final(buf)@ == left_in_place(desc@, old(buf)@),
{
    VectorTable::standard(desc).convert_inplace(buf)
}

/// Converts RGBA to BGRA where the pixels lie, in blocks of [`VECTOR_WIDTH`]
/// pixels.
pub fn rgba_to_bgra_inplace(buf: &mut [u8]) -> (done: Result<(), SwizzleError>)
    ensures
        done == single_verdict(old(buf)@.len() as int),
        final(buf)@ == left_in_place(swap_red_blue(), old(buf)@),
{
    convert_inplace(&Descriptor::swap(), buf)
}

/// Converts the RGBA pixels of `src` to BGRA pixels in `dst`, in blocks of
/// [`VECTOR_WIDTH`] pixels.
pub fn rgba_to_bgra(src: &[u8], dst: &mut [u8]) -> (done: Result<(), SwizzleError>)
    ensures
        done == pair_verdict(src@.len() as int, old(dst)@.len() as int),
        final(dst)@ == left_in_dst(swap_red_blue(), src@, old(dst)@),
{
    convert(&Descriptor::swap(), src, dst)
}

/// Converts BGRA to RGBA where the pixels lie, in blocks of [`VECTOR_WIDTH`]
/// pixels.
pub fn bgra_to_rgba_inplace(buf: &mut [u8]) -> (done: Result<(), SwizzleError>)
    ensures
        done == single_verdict(old(buf)@.len() as int),
        final(buf)@ == left_in_place(swap_red_blue(), old(buf)@),
{
    convert_inplace(&Descriptor::swap(), buf)
}

/// Converts the BGRA pixels of `src` to RGBA pixels in `dst`, in blocks of
/// [`VECTOR_WIDTH`] pixels.
pub fn bgra_to_rgba(src: &[u8], dst: &mut [u8]) -> (done: Result<(), SwizzleError>)
    ensures
        done == pair_verdict(src@.len() as int, old(dst)@.len() as int),
        final(dst)@ == left_in_dst(swap_red_blue(), src@, old(dst)@),
{
    convert(&Descriptor::swap(), src, dst)
}

/// Converts RGB0 to RGBX where the pixels lie, in blocks of [`VECTOR_WIDTH`]
/// pixels.
pub fn rgb0_to_rgbx_inplace(buf: &mut [u8]) -> (done: Result<(), SwizzleError>)
    ensures
        done == single_verdict(old(buf)@.len() as int),
        final(buf)@ == left_in_place(opaque_alpha(), old(buf)@),
{
    convert_inplace(&Descriptor::opaque(), buf)
}

/// Converts the RGB0 pixels of `src` to RGBX pixels in `dst`, in blocks of
/// [`VECTOR_WIDTH`] pixels.
pub fn rgb0_to_rgbx(src: &[u8], dst: &mut [u8]) -> (done: Result<(), SwizzleError>)
    ensures
        done == pair_verdict(src@.len() as int, old(dst)@.len() as int),
        final(dst)@ == left_in_dst(opaque_alpha(), src@, old(dst)@),
{
    convert(&Descriptor::opaque(), src, dst)
}

/// Converts BGR0 to BGRX where the pixels lie, in blocks of [`VECTOR_WIDTH`]
/// pixels.
pub fn bgr0_to_bgrx_inplace(buf: &mut [u8]) -> (done: Result<(), SwizzleError>)
    ensures
        done == single_verdict(old(buf)@.len() as int),
        final(buf)@ == left_in_place(opaque_alpha(), old(buf)@),
{
    convert_inplace(&Descriptor::opaque(), buf)
}

/// Converts the BGR0 pixels of `src` to BGRX pixels in `dst`, in blocks of
/// [`VECTOR_WIDTH`] pixels.
pub fn bgr0_to_bgrx(src: &[u8], dst: &mut [u8]) -> (done: Result<(), SwizzleError>)
    ensures
        done == pair_verdict(src@.len() as int, old(dst)@.len() as int),
        final(dst)@ == left_in_dst(opaque_alpha(), src@, old(dst)@),
{
    convert(&Descriptor::opaque(), src, dst)
}

/// Converts RGB0 to BGRX where the pixels lie, in blocks of [`VECTOR_WIDTH`]
/// pixels.
pub fn rgb0_to_bgrx_inplace(buf: &mut [u8]) -> (done: Result<(), SwizzleError>)
    ensures
        done == single_verdict(old(buf)@.len() as int),
        final(buf)@ == left_in_place(swap_red_blue_opaque(), old(buf)@),
{
    convert_inplace(&Descriptor::swap_opaque(), buf)
}

/// Converts the RGB0 pixels of `src` to BGRX pixels in `dst`, in blocks of
/// [`VECTOR_WIDTH`] pixels.
pub fn rgb0_to_bgrx(src: &[u8], dst: &mut [u8]) -> (done: Result<(), SwizzleError>)
    ensures
        done == pair_verdict(src@.len() as int, old(dst)@.len() as int),
        final(dst)@ == left_in_dst(swap_red_blue_opaque(), src@, old(dst)@),
{
    convert(&Descriptor::swap_opaque(), src, dst)
}

/// Converts BGR0 to RGBX where the pixels lie, in blocks of [`VECTOR_WIDTH`]
/// pixels.
pub fn bgr0_to_rgbx_inplace(buf: &mut [u8]) -> (done: Result<(), SwizzleError>)
    ensures
        done == single_verdict(old(buf)@.len() as int),
        final(buf)@ == left_in_place(swap_red_blue_opaque(), old(buf)@),
{
    convert_inplace(&Descriptor::swap_opaque(), buf)
}

/// Converts the BGR0 pixels of `src` to RGBX pixels in `dst`, in blocks of
/// [`VECTOR_WIDTH`] pixels.
pub fn bgr0_to_rgbx(src: &[u8], dst: &mut [u8]) -> (done: Result<(), SwizzleError>)
    ensures
        done == pair_verdict(src@.len() as int, old(dst)@.len() as int),
        final(dst)@ == left_in_dst(swap_red_blue_opaque(), src@, old(dst)@),
{
    convert(&Descriptor::swap_opaque(), src, dst)
}

/// Lane `j` of a generated table reads from the pixel that it lies in.
pub proof fn lemma_lane_index(t: Transform, width: int, j: int)
    requires
        t.valid(),
        0 <= j < 4 * width,
    ensures
        vector_form(t, width).idxs[j] == j - j % 4 + t.perm[j % 4],
        0 <= vector_form(t, width).idxs[j] < 4 * width,
{
    assert(0 <= t.perm[j % 4] < 4);
}

/// In a buffer of whole blocks, the vector form of a transform yields at
/// every byte what the transform itself yields there.
pub proof fn lemma_vector_byte(t: Transform, width: int, src: Seq<u8>, i: int)
    requires
        t.valid(),
        width >= 1,
        0 <= i,
        i - i % (4 * width) + 4 * width <= src.len(),
    ensures
        vector_form(t, width).byte_at(src, i) == t.byte_at(src, i),
{
    let form = vector_form(t, width);
    let lanes = 4 * width;
    let j = i % lanes;
    lemma_mod_pos_bound(i, lanes);
    lemma_mod_decreases(i as nat, lanes as nat);
    lemma_mod_mod(i, 4, width);
    lemma_lane_index(t, width, j);
    let k = i % 4;
    assert(j % 4 == k);
    assert(0 <= t.perm[k] < 4);
    let block = src.subrange(i - j, i - j + lanes);
    assert(form.keep[j] == t.keeps(k));
    if t.keeps(k) {
        assert(form.lane(block, j) == block[form.idxs[j]]);
        assert(block[form.idxs[j]] == src[i - j + form.idxs[j]]);
    } else {
        assert(form.constant[j] == t.constant());
    }
}

/// The block after a block that begins below `end` ends at or below `end`.
proof fn lemma_next_block(base: int, end: int, lanes: int)
    requires
        lanes > 0,
        0 <= base < end,
        base % lanes == 0,
        end % lanes == 0,
    ensures
        base + lanes <= end,
        (base + lanes) % lanes == 0,
{
    lemma_fundamental_div_mod(base, lanes);
    lemma_fundamental_div_mod(end, lanes);
    let a = base / lanes;
    let b = end / lanes;
    assert(a < b) by (nonlinear_arith)
        requires
            lanes > 0,
            lanes * a < lanes * b,
    ;
    assert(lanes * (a + 1) <= lanes * b) by (nonlinear_arith)
        requires
            lanes > 0,
            a + 1 <= b,
    ;
    assert(lanes * (a + 1) == lanes * a + lanes) by (nonlinear_arith);
    lemma_mod_multiples_basic(a + 1, lanes);
    lemma_mul_is_commutative(a + 1, lanes);
}

/// Byte `base + r` lies in lane `r` of the block that begins at `base`.
proof fn lemma_lane_of(base: int, r: int, lanes: int)
    requires
        lanes > 0,
        0 <= base,
        base % lanes == 0,
        0 <= r < lanes,
    ensures
        (base + r) % lanes == r,
{
    lemma_fundamental_div_mod(base, lanes);
    lemma_mul_is_commutative(base / lanes, lanes);
    lemma_fundamental_div_mod_converse(base + r, lanes, base / lanes, r);
}

/// The block of a byte below `end` ends at or below `end`.
pub proof fn lemma_block_of(i: int, end: int, lanes: int)
    requires
        lanes > 0,
        0 <= i < end,
        end % lanes == 0,
    ensures
        i - i % lanes + lanes <= end,
{
    lemma_fundamental_div_mod(i, lanes);
    lemma_mod_pos_bound(i, lanes);
    lemma_mod_multiples_basic(i / lanes, lanes);
    lemma_mul_is_commutative(i / lanes, lanes);
    lemma_next_block(i - i % lanes, end, lanes);
}

/// A whole number of blocks is a whole number of pixels.
proof fn lemma_prefix_is_pixels(len: int, width: int)
    requires
        width >= 1,
        0 <= len,
    ensures
        (len - len % (4 * width)) % 4 == 0,
{
    let lanes = 4 * width;
    lemma_fundamental_div_mod(len, lanes);
    let q = len / lanes;
    assert(lanes * q == 4 * (width * q)) by (nonlinear_arith)
        requires
            lanes == 4 * width,
    ;
}

} // verus!
