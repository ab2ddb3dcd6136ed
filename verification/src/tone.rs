use vstd::prelude::*;

verus! {

/// One whole unit of a real-valued setting. Contrast, brightness and the
/// edge threshold are given in thousandths: a contrast of 1.5 is 1500.
pub const MILLI: i64 = 1000;

/// Weight of the red channel in the luminance, in ten-thousandths.
pub const WEIGHT_RED: u32 = 2989;

/// Weight of the green channel in the luminance, in ten-thousandths.
pub const WEIGHT_GREEN: u32 = 5870;

/// Weight of the blue channel in the luminance, in ten-thousandths.
pub const WEIGHT_BLUE: u32 = 1140;

/// What the three weights are fractions of.
pub const WEIGHT_SCALE: u32 = 10000;

/// The adjusted channel value before clamping and truncation, as a
/// numerator over `2 * MILLI`.
///
/// With `v = value / 255`, `c = contrast / 1000` and `b = brightness / 1000`
/// the adjusted value is `(v - 1/2) * c + 1/2 + b`; scaled back by 255 that
/// is `((2 * value - 255) * contrast + 255 * 1000 + 510 * brightness) / 2000`.
pub open spec fn adjusted_numerator(value: int, contrast: int, brightness: int) -> int {
    (2 * value - 255) * contrast + 255 * MILLI + 510 * brightness
}

/// A channel value after contrast about mid-gray, then brightness, then
/// clamping to `[0, 1]`, scaled back to a byte by truncation.
pub open spec fn adjusted_channel(value: int, contrast: int, brightness: int) -> int {
    let n = adjusted_numerator(value, contrast, brightness);
    if n <= 0 {
        0
    } else if n >= 255 * (2 * MILLI) {
        255
    } else {
        n / (2 * MILLI)
    }
}

/// A colour with each channel adjusted on its own.
pub open spec fn adjusted_pixel(rgb: (u8, u8, u8), contrast: int, brightness: int) -> (
    int,
    int,
    int,
) {
    (
        adjusted_channel(rgb.0 as int, contrast, brightness),
        adjusted_channel(rgb.1 as int, contrast, brightness),
        adjusted_channel(rgb.2 as int, contrast, brightness),
    )
}

/// The luminance `0.2989 R + 0.5870 G + 0.1140 B`, truncated to an integer.
pub open spec fn luminance(r: int, g: int, b: int) -> int {
    (WEIGHT_RED * r + WEIGHT_GREEN * g + WEIGHT_BLUE * b) / (WEIGHT_SCALE as int)
}

/// The place in a gradient of `len` characters that stands for luminance
/// `l`: `l / 255 * len` truncated, and the last place where that would lie
/// past the end.
pub open spec fn gradient_index(l: int, len: int) -> int {
    let i = l * len / 255;
    if i >= len {
        len - 1
    } else {
        i
    }
}

/// Adjusts one channel value for contrast and brightness, both in
/// thousandths.
pub fn adjust_channel(value: u8, contrast: i32, brightness: i32) -> (r: u8)
    ensures
        r == adjusted_channel(value as int, contrast as int, brightness as int),
{
    let centred: i64 = 2 * (value as i64) - 255;
    assert(-255 * 0x8000_0000 <= centred * contrast <= 255 * 0x8000_0000) by (nonlinear_arith)
        requires
            -255 <= centred <= 255,
            -0x8000_0000 <= contrast < 0x8000_0000,
    ;
    let n: i64 = centred * (contrast as i64) + 255 * MILLI + 510 * (brightness as i64);
    if n <= 0 {
        0
    } else if n >= 255 * (2 * MILLI) {
        255
    } else {
        (n / (2 * MILLI)) as u8
    }
}

/// The luminance of a colour.
pub fn luminance_of(r: u8, g: u8, b: u8) -> (l: u8)
    ensures
        l == luminance(r as int, g as int, b as int),
        l <= 254,
{
    let sum: u32 = WEIGHT_RED * (r as u32) + WEIGHT_GREEN * (g as u32) + WEIGHT_BLUE * (b as u32);
    (sum / WEIGHT_SCALE) as u8
}

/// The place in a gradient of `len` characters that stands for luminance
/// `l`.
pub fn index_for(l: u8, len: usize) -> (i: usize)
    requires
        len > 0,
    ensures
        i == gradient_index(l as int, len as int),
        i < len,
{
    assert(l * len <= u128::MAX) by (nonlinear_arith)
        requires
            l <= 255,
            len <= u64::MAX,
    ;
    let scaled: u128 = (l as u128) * (len as u128) / 255;
    if scaled >= len as u128 {
        len - 1
    } else {
        scaled as usize
    }
}

/// An adjusted channel value is a byte, whatever the contrast and the
/// brightness.
pub proof fn lemma_adjusted_channel_is_byte(value: int, contrast: int, brightness: int)
    ensures
        0 <= adjusted_channel(value, contrast, brightness) <= 255,
{
}

/// At a fixed contrast that is not negative and a fixed brightness, a
/// larger channel value never gives a smaller adjusted value.
pub proof fn lemma_adjusted_channel_monotonic(
    low: int,
    high: int,
    contrast: int,
    brightness: int,
)
    requires
        low <= high,
        contrast >= 0,
    ensures
        adjusted_channel(low, contrast, brightness) <= adjusted_channel(
            high,
            contrast,
            brightness,
        ),
{
    let nl = adjusted_numerator(low, contrast, brightness);
    let nh = adjusted_numerator(high, contrast, brightness);
    assert((2 * low - 255) * contrast <= (2 * high - 255) * contrast) by (nonlinear_arith)
        requires
            low <= high,
            contrast >= 0,
    ;
    assert(nl <= nh);
}

/// At a fixed contrast and channel value, a larger brightness never gives
/// a smaller adjusted value.
pub proof fn lemma_adjusted_channel_monotonic_in_brightness(
    value: int,
    contrast: int,
    low: int,
    high: int,
)
    requires
        low <= high,
    ensures
        adjusted_channel(value, contrast, low) <= adjusted_channel(value, contrast, high),
{
    assert(adjusted_numerator(value, contrast, low) <= adjusted_numerator(value, contrast, high));
}

/// With contrast one and brightness zero a channel value stays as it is.
pub proof fn lemma_adjusted_channel_identity(value: int)
    requires
        0 <= value <= 255,
    ensures
        adjusted_channel(value, MILLI as int, 0) == value,
{
}

/// The luminance of a colour is a byte, and never reaches 255: the weights
/// add up to a little less than one.
pub proof fn lemma_luminance_bounds(r: int, g: int, b: int)
    requires
        0 <= r <= 255,
        0 <= g <= 255,
        0 <= b <= 255,
    ensures
        0 <= luminance(r, g, b) <= 254,
{
}

/// The luminance of a gray `(v, v, v)` is `v` less one, and zero for black.
pub proof fn lemma_luminance_of_gray(v: int)
    requires
        0 <= v <= 255,
    ensures
        luminance(v, v, v) == if v == 0 {
            0
        } else {
            v - 1
        },
{
}

/// Luminance never falls when a channel rises.
pub proof fn lemma_luminance_monotonic(r1: int, g1: int, b1: int, r2: int, g2: int, b2: int)
    requires
        r1 <= r2,
        g1 <= g2,
        b1 <= b2,
    ensures
        luminance(r1, g1, b1) <= luminance(r2, g2, b2),
{
}

/// For a luminance that is a byte, the place chosen in a gradient lies
/// inside it; the brightest luminance takes the last place.
pub proof fn lemma_gradient_index_in_range(l: int, len: int)
    requires
        0 <= l <= 255,
        len >= 1,
    ensures
        0 <= gradient_index(l, len) < len,
        gradient_index(255, len) == len - 1,
        gradient_index(0, len) == 0,
{
    assert(0 <= l * len) by (nonlinear_arith)
        requires
            0 <= l,
            len >= 1,
    ;
    assert(255 * len / 255 == len);
}

/// A brighter luminance never takes an earlier place in a gradient.
pub proof fn lemma_gradient_index_monotonic(low: int, high: int, len: int)
    requires
        0 <= low <= high,
        len >= 1,
    ensures
        gradient_index(low, len) <= gradient_index(high, len),
{
    assert(low * len <= high * len) by (nonlinear_arith)
        requires
            low <= high,
            len >= 1,
    ;
}

} // verus!
