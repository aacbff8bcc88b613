//! Mean luminance, `Y = 0.299 R + 0.587 G + 0.114 B` averaged over all pixels.
//!
//! The mean is kept as an exact fraction: the weights are scaled by 1000 to integers, the
//! weighted samples of every pixel are summed, and the sum is divided by `1000 * pixels`.
use vstd::arithmetic::mul::*;
use vstd::prelude::*;

use crate::raster::{Image, ImageModel};

verus! {

/// A mean luminance `numerator / denominator`, on the scale of the samples (0 to 255).
///
/// An image of no pixels gives `0 / 0`, which has no value; the floating-point reading of it
/// is NaN.
#[derive(Debug, Clone, Copy, PartialEq, Eq, Structural)]
pub struct Luminance {
    pub numerator: u128,
    pub denominator: u128,
}

/// Luminance of pixel `p` (counted in row-major order), scaled by 1000: the first three
/// samples of the pixel weighted 299, 587 and 114.
pub open spec fn pixel_luma(data: Seq<u8>, channels: nat, p: int) -> int {
    299 * data[p * channels] + 587 * data[p * channels + 1] + 114 * data[p * channels + 2]
}

/// Sum of the scaled luminance of the first `n` pixels.
pub open spec fn luma_total(data: Seq<u8>, channels: nat, n: nat) -> int
    decreases n,
{
    if n == 0 {
        0
    } else {
        luma_total(data, channels, (n - 1) as nat) + pixel_luma(data, channels, n - 1)
    }
}

/// The fraction that `calculate_luminance_array` answers: the scaled sum over all pixels
/// divided by 1000 per pixel for an image of at least three channels (extra channels, such
/// as alpha, are not weighted), and `0 / 1` for an image of fewer channels.
pub open spec fn luminance_fraction(m: ImageModel) -> (int, int) {
    if m.channels >= 3 {
        (luma_total(m.data, m.channels, m.height * m.width), (1000 * (m.height * m.width)) as int)
    } else {
        (0, 1)
    }
}

proof fn lemma_pixel_indices(p: int, pixels: int, channels: int)
    requires
        0 <= p < pixels,
        3 <= channels,
    ensures
        0 <= p * channels,
        p * channels + 2 < pixels * channels,
{
    assert(0 <= p * channels && p * channels + 2 < pixels * channels) by (nonlinear_arith)
        requires
            0 <= p < pixels,
            3 <= channels,
    ;
}

proof fn lemma_luma_total_bounds(data: Seq<u8>, channels: nat, n: nat)
    ensures
        0 <= luma_total(data, channels, n) <= 255000 * n,
    decreases n,
{
    if n > 0 {
        lemma_luma_total_bounds(data, channels, (n - 1) as nat);
    }
}

proof fn lemma_luma_total_uniform(data: Seq<u8>, channels: nat, n: nat, v: u8)
    requires
        3 <= channels,
        n * channels <= data.len(),
        forall|i: int| 0 <= i < data.len() ==> #[trigger] data[i] == v,
    ensures
        luma_total(data, channels, n) == 1000 * (v as int) * (n as int),
    decreases n,
{
    if n > 0 {
        let q = (n - 1) as int;
        lemma_pixel_indices(q, n as int, channels as int);
        assert(n * channels >= q * channels) by (nonlinear_arith)
            requires
                q == n - 1,
                channels >= 0,
        ;
        lemma_luma_total_uniform(data, channels, q as nat, v);
        assert(data[q * channels] == v);
        assert(data[q * channels + 1] == v);
        assert(data[q * channels + 2] == v);
        assert(pixel_luma(data, channels, q) == 1000 * (v as int));
        assert(1000 * (v as int) * q + 1000 * (v as int) == 1000 * (v as int) * (n as int))
            by (nonlinear_arith)
            requires
                q == n - 1,
        ;
    } else {
        assert(1000 * (v as int) * (n as int) == 0) by (nonlinear_arith)
            requires
                n == 0,
        ;
    }
}

/// Mean luminance of an image, summed pixel by pixel in row-major order.
pub fn calculate_luminance_array_sequential(image: &Image) -> (r: Luminance)
    ensures
        r.numerator == luminance_fraction(image@).0,
        r.denominator == luminance_fraction(image@).1,
        r.numerator <= 255 * r.denominator,
{
    let (height, width, channels) = image.dim();
    if channels < 3 {
        return Luminance { numerator: 0, denominator: 1 };
    }
    let data = image.as_bytes();
    let len = data.len();
    proof {
        assert(height * width <= height * width * channels) by (nonlinear_arith)
            requires
                height * width >= 0,
                channels >= 3,
        ;
    }
    let pixels = height * width;
    let mut total: u128 = 0;
    let mut p: usize = 0;
    while p < pixels
        invariant
            p <= pixels,
            pixels == height * width,
            3 <= channels,
            data@ == image@.data,
            data@.len() == pixels * channels,
            len == data@.len(),
            channels == image@.channels,
            total == luma_total(data@, channels as nat, p as nat),
            total <= 255000 * p,
        decreases pixels - p,
    {
        proof {
            lemma_pixel_indices(p as int, pixels as int, channels as int);
            lemma_mul_upper_bound(p as int, usize::MAX as int, 255000, 255000);
        }
        let base = p * channels;
        let r = data[base] as u128;
        let g = data[base + 1] as u128;
        let b = data[base + 2] as u128;
        total = total + 299 * r + 587 * g + 114 * b;
        p = p + 1;
    }
    proof {
        lemma_luma_total_bounds(image@.data, channels as nat, pixels as nat);
    }
    Luminance { numerator: total, denominator: 1000 * (pixels as u128) }
}

/// Mean luminance of an image; the same value as `calculate_luminance_array_sequential`.
pub fn calculate_luminance_array(image: &Image) -> (r: Luminance)
    ensures
        r.numerator == luminance_fraction(image@).0,
        r.denominator == luminance_fraction(image@).1,
        r.numerator <= 255 * r.denominator,
{
    calculate_luminance_array_sequential(image)
}

/// The mean luminance never exceeds that of pure white (255) and is never negative.
pub proof fn law_luminance_within_sample_range(m: ImageModel)
    ensures
        0 <= luminance_fraction(m).0 <= 255 * luminance_fraction(m).1,
{
    lemma_luma_total_bounds(m.data, m.channels, m.height * m.width);
}

/// An image whose every sample is `v` has mean luminance exactly `v` (the weights sum to one).
pub proof fn law_uniform_image_luminance(m: ImageModel, v: u8)
    requires
        m.wf(),
        m.channels >= 3,
        m.uniform(v),
    ensures
        luminance_fraction(m).0 == v * luminance_fraction(m).1,
{
    lemma_luma_total_uniform(m.data, m.channels, m.height * m.width, v);
    lemma_mul_is_associative(1000, v as int, (m.height * m.width) as int);
    lemma_mul_is_commutative(1000, v as int);
    lemma_mul_is_associative(v as int, 1000, (m.height * m.width) as int);
}

} // verus!
