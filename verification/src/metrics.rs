//! The arithmetic between what a font reports and what layout needs.

use vstd::prelude::*;

verus! {

/// The width that text may take before it is wrapped: twice the width of the
/// window in backend pixels.
pub open spec fn spec_wrap_width(window_width: u32, scaling_factor: u32) -> nat {
    (2 * window_width * scaling_factor) as nat
}

/// The width that text may take before it is wrapped.
pub fn wrap_width(window_width: u32, scaling_factor: u32) -> (width: u128)
    ensures
        width == spec_wrap_width(window_width, scaling_factor),
{
    assert(2 * window_width * scaling_factor <= u128::MAX) by (nonlinear_arith)
        requires
            window_width <= u32::MAX,
            scaling_factor <= u32::MAX,
    ;
    2 * (window_width as u128) * (scaling_factor as u128)
}

/// The width of a line at the font size it is meant for, given the width and
/// height that the font reports at the size it is loaded in: the reported
/// width times `font_size / height`, rounded up, and `u32::MAX` where that
/// is too large for a `u32`.
///
/// A font that reports no height gives `u32::MAX`, unless the product of
/// width and font size is zero, which gives zero.
pub open spec fn spec_rescale_width(width: u32, height: u32, font_size: nat) -> int {
    let product = width * font_size;
    if product == 0 {
        0
    } else if height == 0 {
        u32::MAX as int
    } else {
        let scaled = (product + height - 1) / (height as int);
        if scaled > u32::MAX {
            u32::MAX as int
        } else {
            scaled
        }
    }
}

/// Rescales a measured width to the given font size.
pub fn rescale_width(width: u32, height: u32, font_size: u64) -> (scaled: u32)
    ensures
        scaled == spec_rescale_width(width, height, font_size as nat),
{
    assert(width * font_size + height <= u128::MAX) by (nonlinear_arith)
        requires
            width <= u32::MAX,
            height <= u32::MAX,
            font_size <= u64::MAX,
    ;
    let product: u128 = width as u128 * font_size as u128;
    if product == 0 {
        0
    } else if height == 0 {
        u32::MAX
    } else {
        let scaled: u128 = (product + height as u128 - 1) / (height as u128);
        if scaled > u32::MAX as u128 {
            u32::MAX
        } else {
            scaled as u32
        }
    }
}

/// Rescaling rounds up: the result is the least whole number of pixels that
/// is no less than `width * font_size / height`, as long as that fits.
pub proof fn lemma_rescale_rounds_up(width: u32, height: u32, font_size: nat)
    requires
        height > 0,
        spec_rescale_width(width, height, font_size) < u32::MAX,
    ensures
        ({
            let scaled = spec_rescale_width(width, height, font_size);
            &&& scaled * height >= width * font_size
            &&& (scaled - 1) * height < width * font_size || scaled == 0
        }),
{
    let product = width * font_size;
    let h = height as int;
    if product > 0 {
        let n = product + h - 1;
        let q = n / h;
        assert(n == h * q + n % h) by {
            vstd::arithmetic::div_mod::lemma_fundamental_div_mod(n, h);
        }
        assert(0 <= n % h < h) by {
            vstd::arithmetic::div_mod::lemma_mod_bound(n, h);
        }
        assert(q * h >= product) by (nonlinear_arith)
            requires
                n == h * q + n % h,
                n % h < h,
                n == product + h - 1,
        ;
        assert((q - 1) * h < product) by (nonlinear_arith)
            requires
                n == h * q + n % h,
                0 <= n % h,
                n == product + h - 1,
                h > 0,
        ;
    }
}

} // verus!
