//! Transform descriptors: what one conversion does to every pixel.
//!
//! A descriptor is a reordering of the four channels of a pixel, optionally
//! followed by forcing one output channel to a constant. Its mathematical
//! content is a [`Transform`]; [`Transform::image`] is the meaning of every
//! conversion in this crate.

use vstd::prelude::*;

verus! {

/// The mathematical content of a descriptor.
pub struct Transform {
    /// `perm[k]` is the source channel from which output channel `k` is read.
    pub perm: Seq<int>,
    /// `(index, value)`: output channel `index` always holds `value`.
    pub fill: Option<(int, u8)>,
}

impl Transform {
    /// `perm` is a permutation of the four channels and the fill, if any,
    /// names one of them.
    pub open spec fn valid(self) -> bool {
        &&& self.perm.len() == 4
        &&& forall|k: int| 0 <= k < 4 ==> 0 <= #[trigger] self.perm[k] < 4
        &&& forall|j: int, k: int| 0 <= j < k < 4 ==> self.perm[j] != self.perm[k]
        &&& match self.fill {
            Some((index, _)) => 0 <= index < 4,
            None => true,
        }
    }

    /// Whether output channel `k` comes from the source rather than from the
    /// fill constant.
    pub open spec fn keeps(self, k: int) -> bool {
        match self.fill {
            Some((index, _)) => index != k,
            None => true,
        }
    }

    /// The constant written to the filled channel (0 without a fill).
    pub open spec fn constant(self) -> u8 {
        match self.fill {
            Some((_, value)) => value,
            None => 0,
        }
    }

    /// Byte `i` of the converted buffer, as a function of the source buffer.
    pub open spec fn byte_at(self, src: Seq<u8>, i: int) -> u8 {
        let k = i % 4;
        if self.keeps(k) {
            src[i - k + self.perm[k]]
        } else {
            self.constant()
        }
    }

    /// The converted buffer.
    pub open spec fn image(self, src: Seq<u8>) -> Seq<u8> {
        Seq::new(src.len(), |i: int| self.byte_at(src, i))
    }

    /// A buffer that holds `before` below `start` and the converted bytes of
    /// `src` from `start` on.
    pub open spec fn image_from(self, src: Seq<u8>, before: Seq<u8>, start: int) -> Seq<u8> {
        Seq::new(
            src.len(),
            |i: int|
                if i < start {
                    before[i]
                } else {
                    self.byte_at(src, i)
                },
        )
    }
}

/// The permutation that leaves every channel in place.
pub open spec fn identity_order() -> Seq<int> {
    seq![0int, 1, 2, 3]
}

/// Exchange channels 0 and 2: RGBA to BGRA and back.
pub open spec fn swap_red_blue() -> Transform {
    Transform { perm: seq![2int, 1, 0, 3], fill: None }
}

/// Keep the three colour channels and make the fourth opaque.
pub open spec fn opaque_alpha() -> Transform {
    Transform { perm: identity_order(), fill: Some((3int, 255u8)) }
}

/// Exchange channels 0 and 2 and make the fourth opaque.
pub open spec fn swap_red_blue_opaque() -> Transform {
    Transform { perm: seq![2int, 1, 0, 3], fill: Some((3int, 255u8)) }
}

/// Reverse the four bytes of a pixel.
pub open spec fn reverse_bytes() -> Transform {
    Transform { perm: seq![3int, 2, 1, 0], fill: None }
}

/// Rotate the four bytes of a pixel one place towards the front.
pub open spec fn rotate_front() -> Transform {
    Transform { perm: seq![1int, 2, 3, 0], fill: None }
}

/// A channel that is replaced by a constant.
#[derive(Clone, Copy, Debug)]
pub struct Fill {
    /// The output channel, 0 to 3.
    pub index: usize,
    /// The value it always receives.
    pub value: u8,
}

/// The transform that a channel order and a fill stand for. No order means
/// the identity.
pub open spec fn transform_of(perm: Option<[usize; 4]>, fill: Option<Fill>) -> Transform {
    Transform {
        perm: match perm {
            Some(order) => Seq::new(4, |k: int| order@[k] as int),
            None => identity_order(),
        },
        fill: match fill {
            Some(f) => Some((f.index as int, f.value)),
            None => None,
        },
    }
}

/// One conversion: an optional channel order and an optional fill. Every
/// value of this type is valid.
#[derive(Clone, Copy, Debug)]
pub struct Descriptor {
    perm: Option<[usize; 4]>,
    fill: Option<Fill>,
}

impl View for Descriptor {
    type V = Transform;

    closed spec fn view(&self) -> Transform {
        transform_of(self.perm, self.fill)
    }
}

impl Descriptor {
    #[verifier::type_invariant]
    closed spec fn inv(self) -> bool {
        self@.valid()
    }

    /// Builds a descriptor, or `None` where `perm` is no permutation of
    /// `0..4` or the fill index is not below 4.
    pub fn new(perm: Option<[usize; 4]>, fill: Option<Fill>) -> (made: Option<Descriptor>)
        ensures
            made is Some <==> transform_of(perm, fill).valid(),
            made is Some ==> made.unwrap()@ == transform_of(perm, fill),
    {
        let order_ok = match perm {
            Some(p) => {
                let in_range = p[0] < 4 && p[1] < 4 && p[2] < 4 && p[3] < 4;
                let distinct = p[0] != p[1] && p[0] != p[2] && p[0] != p[3] && p[1] != p[2]
                    && p[1] != p[3] && p[2] != p[3];
                proof {
                    let t = transform_of(perm, fill);
                    assert(t.perm[0] == p@[0] && t.perm[1] == p@[1] && t.perm[2] == p@[2]
                        && t.perm[3] == p@[3]);
                }
                in_range && distinct
            },
            None => true,
        };
        let fill_ok = match fill {
            Some(f) => f.index < 4,
            None => true,
        };
        if order_ok && fill_ok {
            Some(Descriptor { perm, fill })
        } else {
            None
        }
    }

    /// Exchanges channels 0 and 2: RGBA to BGRA, and BGRA to RGBA.
    pub fn swap() -> (d: Descriptor)
        ensures
            d@ == swap_red_blue(),
    {
        let perm: Option<[usize; 4]> = Some([2, 1, 0, 3]);
        assert(transform_of(perm, None).perm =~= swap_red_blue().perm);
        Descriptor { perm, fill: None }
    }

    /// Keeps the colour channels and sets channel 3 to 255: RGB0 to RGBX, and
    /// BGR0 to BGRX.
    pub fn opaque() -> (d: Descriptor)
        ensures
            d@ == opaque_alpha(),
    {
        let fill: Option<Fill> = Some(Fill { index: 3, value: 255 });
        Descriptor { perm: None, fill }
    }

    /// Exchanges channels 0 and 2 and sets channel 3 to 255: RGB0 to BGRX,
    /// and BGR0 to RGBX.
    pub fn swap_opaque() -> (d: Descriptor)
        ensures
            d@ == swap_red_blue_opaque(),
    {
        let perm: Option<[usize; 4]> = Some([2, 1, 0, 3]);
        let fill: Option<Fill> = Some(Fill { index: 3, value: 255 });
        assert(transform_of(perm, fill).perm =~= swap_red_blue_opaque().perm);
        Descriptor { perm, fill }
    }

    /// Reverses the bytes of each pixel: a 32-bit packed pixel, stored with
    /// its least significant byte first, to RGBA.
    pub fn reverse() -> (d: Descriptor)
        ensures
            d@ == reverse_bytes(),
    {
        let perm: Option<[usize; 4]> = Some([3, 2, 1, 0]);
        assert(transform_of(perm, None).perm =~= reverse_bytes().perm);
        Descriptor { perm, fill: None }
    }

    /// Moves bytes 1 to 3 of each pixel one place forward and byte 0 to the
    /// end: a 32-bit packed pixel, stored with its least significant byte
    /// first, to BGRA.
    pub fn rotate() -> (d: Descriptor)
        ensures
            d@ == rotate_front(),
    {
        let perm: Option<[usize; 4]> = Some([1, 2, 3, 0]);
        assert(transform_of(perm, None).perm =~= rotate_front().perm);
        Descriptor { perm, fill: None }
    }

    /// The channel order: entry `k` is the source channel from which output
    /// channel `k` is read.
    pub fn order(&self) -> (order: [usize; 4])
        ensures
            self@.valid(),
            forall|k: int| 0 <= k < 4 ==> #[trigger] order@[k] == self@.perm[k],
    {
        proof {
            use_type_invariant(self);
        }
        match self.perm {
            Some(p) => p,
            None => [0, 1, 2, 3],
        }
    }

    /// The fill of this descriptor, if it has one.
    pub fn fill(&self) -> (f: Option<Fill>)
        ensures
            self@.fill == (match f {
                Some(x) => Some((x.index as int, x.value)),
                None => None,
            }),
            self@.valid(),
    {
        proof {
            use_type_invariant(self);
        }
        self.fill
    }
}

} // verus!
