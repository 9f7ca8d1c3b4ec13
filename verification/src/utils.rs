//! Small rules shared by the materials and the renderer, and the way from a
//! rendered frame to a picture.

use crate::scalar::{Scalar, FRACTION_SPAN};
use crate::vector::Vector3;
use vstd::arithmetic::div_mod::{
    lemma_basic_div, lemma_div_is_ordered_by_denominator, lemma_div_multiples_vanish_quotient,
};
use vstd::arithmetic::power2::{
    lemma2_to64, lemma2_to64_rest, lemma_pow2_adds, lemma_pow2_pos, lemma_pow2_strictly_increases,
    pow2,
};
use vstd::bits::lemma_u64_shr_is_div;
use vstd::prelude::*;

verus! {

/// The bit pattern of `1e-8`, the threshold below which a component counts as
/// nothing.
pub const NEAR_ZERO_BITS: u64 = 0x3e45_798e_e230_8c3a;

/// The bit pattern of `0.999`, the brightest value a channel can show.
pub const BRIGHTEST_BITS: u64 = 0x3fef_f7ce_d916_872b;

/// Whether the size of every component of `vector` is below `1e-8`, whatever
/// its sign.
pub open spec fn near_zero_spec(vector: Vector3) -> bool {
    let threshold = Scalar { bits: NEAR_ZERO_BITS };
    &&& vector.x.abs_spec().lt_spec(threshold)
    &&& vector.y.abs_spec().lt_spec(threshold)
    &&& vector.z.abs_spec().lt_spec(threshold)
}

/// Whether the size of every component of `vector` is below `1e-8`: as a
/// direction it leads nowhere, as a decay it lets no light through.
pub fn near_zero(vector: Vector3) -> (tiny: bool)
    ensures
        tiny == near_zero_spec(vector),
{
    let threshold = Scalar::from_bits(NEAR_ZERO_BITS);
    vector.x.abs().lt(threshold) && vector.y.abs().lt(threshold) && vector.z.abs().lt(threshold)
}

/// `value` held between zero and `0.999`: a value below zero becomes zero, one
/// above `0.999` becomes `0.999`, any other stays, a NaN too.
pub open spec fn clamped(value: Scalar) -> Scalar {
    if value.lt_spec(Scalar::zero_spec()) {
        Scalar::zero_spec()
    } else if (Scalar { bits: BRIGHTEST_BITS }).lt_spec(value) {
        Scalar { bits: BRIGHTEST_BITS }
    } else {
        value
    }
}

/// The byte that shows a channel value: the value held between zero and
/// `0.999`, times 256, rounded down. A NaN shows as 0.
pub open spec fn channel_spec(value: Scalar) -> int {
    let shown = clamped(value);
    if shown.is_nan_spec() {
        0
    } else {
        shown.numerator() / (pow2(1066) as int)
    }
}

/// A number of `significand` steps of `2^(exponent - 1075)`, times 256 and
/// rounded down, is the significand without its last `1067 - exponent` bits.
proof fn lemma_scaled_floor(significand: int, exponent: int)
    requires
        0 <= significand,
        1 <= exponent <= 1067,
    ensures
        (significand * pow2((exponent - 1) as nat)) / (pow2(1066) as int) == significand / (pow2(
            (1067 - exponent) as nat,
        ) as int),
{
    let low = pow2((exponent - 1) as nat) as int;
    let high = pow2((1067 - exponent) as nat) as int;
    lemma_pow2_adds((exponent - 1) as nat, (1067 - exponent) as nat);
    lemma_pow2_pos((exponent - 1) as nat);
    lemma_pow2_pos((1067 - exponent) as nat);
    lemma_div_multiples_vanish_quotient(low, significand, high);
    assert(significand * low == low * significand) by (nonlinear_arith);
}

/// The byte that shows a channel value. What is no number, or not above
/// zero, shows as 0; what reaches `0.999` shows as 255.
pub fn into_channel(value: Scalar) -> (byte: u8)
    ensures
        byte == channel_spec(value),
        value.is_nan_spec() || value.le_spec(Scalar::zero_spec()) ==> byte == 0,
        (Scalar { bits: BRIGHTEST_BITS }).le_spec(value) ==> byte == 255,
{
    let brightest = Scalar::from_bits(BRIGHTEST_BITS);
    if value.is_nan() {
        return 0;
    }
    proof {
        lemma2_to64_rest();
        lemma_pow2_pos(1066);
    }
    if !Scalar::zero().lt(value) {
        proof {
            let shown = clamped(value);
            assert(shown.magnitude() == 0);
            assert(shown.numerator() == 0);
        }
        return 0;
    }
    if brightest.le(value) {
        proof {
            let shown = Scalar { bits: BRIGHTEST_BITS };
            assert(clamped(value).bits == BRIGHTEST_BITS);
            assert(shown.exponent_field() == 1022);
            assert(shown.fraction_field() == 0xf_f7ce_d916_872b);
            lemma_scaled_floor(FRACTION_SPAN + 0xf_f7ce_d916_872b, 1022);
            assert((FRACTION_SPAN + 0xf_f7ce_d916_872b) as int / 0x2000_0000_0000 == 255);
        }
        return 255;
    }
    let exponent: u64 = value.bits / FRACTION_SPAN;
    let fraction: u64 = value.bits % FRACTION_SPAN;
    assert(clamped(value) == value);
    assert(value.magnitude() == value.bits);
    assert(exponent <= 1022);
    if exponent < 1015 {
        proof {
            if exponent > 0 {
                lemma_scaled_floor(FRACTION_SPAN + fraction, exponent as int);
                if exponent < 1014 {
                    lemma_pow2_strictly_increases(53, (1067 - exponent) as nat);
                }
                lemma_basic_div(
                    (FRACTION_SPAN + fraction) as int,
                    pow2((1067 - exponent) as nat) as int,
                );
            } else {
                lemma_pow2_strictly_increases(53, 1066);
                lemma_basic_div(fraction as int, pow2(1066) as int);
            }
        }
        return 0;
    }
    let significand: u64 = FRACTION_SPAN + fraction;
    let shift: u64 = 1067 - exponent;
    let shown: u64 = significand >> shift;
    proof {
        lemma_scaled_floor(significand as int, exponent as int);
        lemma_u64_shr_is_div(significand, shift);
        if shift > 45 {
            lemma_pow2_strictly_increases(45, shift as nat);
        }
        lemma_pow2_pos(shift as nat);
        lemma_div_is_ordered_by_denominator(
            significand as int,
            pow2(45) as int,
            pow2(shift as nat) as int,
        );
        assert(significand as int / 0x2000_0000_0000 < 256);
    }
    shown as u8
}

/// A picture of three bytes a pixel, held as an `image::RgbImage`.
#[verifier::external_body]
pub struct Picture {
    inner: image::RgbImage,
}

/// The samples of a picture: row by row from the top, each row from the left,
/// red, green and blue for each pixel.
pub uninterp spec fn picture_samples(picture: Picture) -> Seq<u8>;

/// The width and the height of a picture, in pixels.
pub uninterp spec fn picture_size(picture: Picture) -> (u32, u32);

/// `image::ImageBuffer::from_raw`: makes a picture of the given size out of
/// samples. There is a picture exactly where the length of a row of samples
/// can be counted at all and the samples are enough for the size, three for
/// each pixel; it keeps all of them, and the size.
#[verifier::external_body]
fn picture_from_raw(width: u32, height: u32, samples: Vec<u8>) -> (picture: Option<Picture>)
    ensures
        picture.is_some() <==> (3 * width <= usize::MAX && 3 * (height * width) <= samples@.len()),
        picture matches Some(p) ==> picture_samples(p) == samples@ && picture_size(p) == (
            width,
            height,
        ),
{
    match image::RgbImage::from_raw(width, height, samples) {
        Some(inner) => Some(Picture { inner }),
        None => None,
    }
}

/// `image::ImageBuffer::into_raw`: hands out the samples that the picture
/// holds.
#[verifier::external_body]
fn picture_into_raw(picture: Picture) -> (samples: Vec<u8>)
    ensures
        samples@ == picture_samples(picture),
{
    picture.inner.into_raw()
}

/// `image::ImageBuffer::dimensions`: the width and the height that the picture
/// was made with.
#[verifier::external_body]
fn picture_dimensions(picture: &Picture) -> (size: (u32, u32))
    ensures
        size == picture_size(*picture),
{
    picture.inner.dimensions()
}

impl Picture {
    /// The width and the height of the picture, in pixels.
    pub fn dimensions(&self) -> (size: (u32, u32))
        ensures
            size == picture_size(*self),
    {
        picture_dimensions(self)
    }

    /// The samples of the picture, ready for an encoder.
    pub fn into_raw(self) -> (samples: Vec<u8>)
        ensures
            samples@ == picture_samples(self),
    {
        picture_into_raw(self)
    }
}

/// Turns a rendered frame into a picture of `width` by `height` pixels: every
/// channel value becomes the byte that shows it.
pub fn into_image(buffer: &[Scalar], width: u32, height: u32) -> (picture: Picture)
    requires
        3 * width <= usize::MAX,
        3 * (height * width) <= buffer@.len(),
    ensures
        picture_size(picture) == (width, height),
        picture_samples(picture).len() == buffer@.len(),
        forall|i: int|
            0 <= i < buffer@.len() ==> #[trigger] picture_samples(picture)[i] == channel_spec(
                buffer@[i],
            ),
{
    let mut samples: Vec<u8> = Vec::new();
    let mut i: usize = 0;
    while i < buffer.len()
        invariant
            i <= buffer@.len(),
            samples@.len() == i,
            forall|k: int| 0 <= k < i ==> #[trigger] samples@[k] == channel_spec(buffer@[k]),
        decreases buffer@.len() - i,
    {
        samples.push(into_channel(buffer[i]));
        i += 1;
    }
    picture_from_raw(width, height, samples).unwrap()
}

} // verus!
