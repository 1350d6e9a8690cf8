use vstd::prelude::*;
use vstd::arithmetic::power2::{
    lemma_pow2_pos, lemma_pow2_strictly_increases, lemma_pow2_unfold, pow2,
};

verus! {

/// Mode in which the wave is shown.
pub const MODE_WAVE: u8 = 0;

/// Mode in which the pulse is shown.
pub const MODE_PULSE: u8 = 1;

/// Mode in which the sine is shown.
pub const MODE_SINE: u8 = 2;

/// Mode in which the snake is shown.
pub const MODE_SNAKE: u8 = 3;

/// Mode before any axis has crossed its threshold: the display stays dark.
pub const MODE_BLANK: u8 = 5;

/// Bit pattern of the single-precision number nearest to 0.8, the threshold
/// that an axis has to pass.
pub const THRESHOLD_BITS: u32 = 0x3F4C_CCCD;

/// Bit pattern of positive infinity; every larger magnitude is not a number.
pub const INFINITY_BITS: u32 = 0x7F80_0000;

/// The sign bit of a single-precision number.
pub const SIGN_BIT: u32 = 0x8000_0000;

/// One reading of the orientation sensor.
///
/// Each axis is held as the IEEE 754 bit pattern of its single-precision
/// value (what `f32::to_bits` gives), so that a reading is compared exactly
/// as the number it stands for.
#[derive(Clone, Copy, Debug, PartialEq, Eq, Structural)]
pub struct Orientation {
    pub x: u32,
    pub y: u32,
    pub z: u32,
}

/// The pattern without its sign bit: exponent and fraction, which order the
/// magnitudes of all numbers as unsigned integers.
pub open spec fn magnitude(bits: u32) -> int {
    if bits >= SIGN_BIT {
        bits - SIGN_BIT
    } else {
        bits as int
    }
}

/// The sign bit is set.
pub open spec fn sign_set(bits: u32) -> bool {
    bits >= SIGN_BIT
}

/// The pattern stands for a number, finite or infinite, greater in
/// magnitude than the threshold.  A pattern that is not a number passes no
/// threshold.
pub open spec fn beyond_threshold(bits: u32) -> bool {
    THRESHOLD_BITS < magnitude(bits) <= INFINITY_BITS
}

/// The value is greater than 0.8.
pub open spec fn above_threshold(bits: u32) -> bool {
    !sign_set(bits) && beyond_threshold(bits)
}

/// The value is less than -0.8.
pub open spec fn below_negated_threshold(bits: u32) -> bool {
    sign_set(bits) && beyond_threshold(bits)
}

/// The mode after a reading: the x axis is looked at before the y axis, and
/// a reading that passes no threshold leaves the mode as it was.
pub open spec fn next_mode(mode: u8, reading: Orientation) -> u8 {
    if above_threshold(reading.x) {
        MODE_WAVE
    } else if below_negated_threshold(reading.x) {
        MODE_PULSE
    } else if above_threshold(reading.y) {
        MODE_SINE
    } else if below_negated_threshold(reading.y) {
        MODE_SNAKE
    } else {
        mode
    }
}

/// Tells whether the value with this bit pattern is greater than 0.8.
pub fn is_above_threshold(bits: u32) -> (above: bool)
    ensures
        above == above_threshold(bits),
{
    THRESHOLD_BITS < bits && bits <= INFINITY_BITS
}

/// Tells whether the value with this bit pattern is less than -0.8.
pub fn is_below_negated_threshold(bits: u32) -> (below: bool)
    ensures
        below == below_negated_threshold(bits),
{
    bits >= SIGN_BIT && THRESHOLD_BITS < bits - SIGN_BIT && bits - SIGN_BIT <= INFINITY_BITS
}

/// Updates the mode from one reading.
pub fn select_mode(mode: u8, reading: Orientation) -> (selected: u8)
    ensures
        selected == next_mode(mode, reading),
{
    if is_above_threshold(reading.x) {
        MODE_WAVE
    } else if is_below_negated_threshold(reading.x) {
        MODE_PULSE
    } else if is_above_threshold(reading.y) {
        MODE_SINE
    } else if is_below_negated_threshold(reading.y) {
        MODE_SNAKE
    } else {
        mode
    }
}

/// A reading in which neither the x nor the y axis passes a threshold keeps
/// the mode, whatever it is; a mode once chosen is never given up for the
/// blank one.
pub proof fn lemma_mode_is_sticky(mode: u8, reading: Orientation)
    ensures
        !beyond_threshold(reading.x) && !beyond_threshold(reading.y) ==> next_mode(mode, reading)
            == mode,
        next_mode(mode, reading) == mode || next_mode(mode, reading) <= MODE_SNAKE,
        mode <= MODE_SNAKE ==> next_mode(mode, reading) <= MODE_SNAKE,
{
}

/// Where the x axis passes a threshold the y axis is not asked, and the z
/// axis never is.
pub proof fn lemma_x_before_y(mode: u8, first: Orientation, second: Orientation)
    requires
        first.x == second.x,
        beyond_threshold(first.x) || first.y == second.y,
    ensures
        next_mode(mode, first) == next_mode(mode, second),
        beyond_threshold(first.x) ==> next_mode(mode, first) == if sign_set(first.x) {
            MODE_PULSE
        } else {
            MODE_WAVE
        },
{
}

/// The exponent field of a pattern: bits 23 to 30.
pub open spec fn exponent_field(bits: u32) -> int {
    magnitude(bits) / 0x80_0000
}

/// The fraction field of a pattern: bits 0 to 22.
pub open spec fn fraction_field(bits: u32) -> int {
    magnitude(bits) % 0x80_0000
}

/// The pattern stands for a finite number.
pub open spec fn is_finite(bits: u32) -> bool {
    magnitude(bits) < INFINITY_BITS
}

/// The magnitude of the finite number that a pattern stands for, counted in
/// units of 2 to the power of -149, the smallest positive single-precision
/// number: the fraction alone below the normal range, and above it the
/// fraction with the hidden bit, doubled for every step of the exponent.
pub open spec fn scaled_magnitude(bits: u32) -> int {
    if exponent_field(bits) == 0 {
        fraction_field(bits)
    } else {
        (0x80_0000 + fraction_field(bits)) * pow2((exponent_field(bits) - 1) as nat)
    }
}

proof fn lemma_scaled_magnitude_bounds(bits: u32)
    requires
        is_finite(bits),
    ensures
        scaled_magnitude(bits) < 0x80_0000 * pow2(exponent_field(bits) as nat),
        exponent_field(bits) >= 1 ==> 0x80_0000 * pow2((exponent_field(bits) - 1) as nat)
            <= scaled_magnitude(bits),
{
    let e = exponent_field(bits);
    let f = fraction_field(bits);
    if e == 0 {
        lemma_pow2_pos(0);
    } else {
        let half = pow2((e - 1) as nat) as int;
        lemma_pow2_pos((e - 1) as nat);
        lemma_pow2_unfold(e as nat);
        assert((0x80_0000 + f) * half < 0x100_0000 * half) by (nonlinear_arith)
            requires
                0 <= f < 0x80_0000,
                half > 0,
        ;
        assert(0x80_0000 * half <= (0x80_0000 + f) * half) by (nonlinear_arith)
            requires
                0 <= f,
                half > 0,
        ;
        assert(0x100_0000 * half == 0x80_0000 * (2 * half)) by (nonlinear_arith);
    }
}

proof fn lemma_scaled_magnitude_increases(a: u32, b: u32)
    requires
        is_finite(a),
        is_finite(b),
        magnitude(a) < magnitude(b),
    ensures
        scaled_magnitude(a) < scaled_magnitude(b),
{
    let ea = exponent_field(a);
    let eb = exponent_field(b);
    let fa = fraction_field(a);
    let fb = fraction_field(b);
    if ea == eb {
        if ea > 0 {
            let scale = pow2((ea - 1) as nat) as int;
            lemma_pow2_pos((ea - 1) as nat);
            assert((0x80_0000 + fa) * scale < (0x80_0000 + fb) * scale) by (nonlinear_arith)
                requires
                    fa < fb,
                    scale > 0,
            ;
        }
    } else {
        assert(ea < eb);
        lemma_scaled_magnitude_bounds(a);
        lemma_scaled_magnitude_bounds(b);
        let above = pow2(ea as nat) as int;
        let below = pow2((eb - 1) as nat) as int;
        if ea < eb - 1 {
            lemma_pow2_strictly_increases(ea as nat, (eb - 1) as nat);
        }
        assert(0x80_0000 * above <= 0x80_0000 * below) by (nonlinear_arith)
            requires
                above <= below,
        ;
    }
}

/// The bit patterns of finite numbers are ordered as the magnitudes of the
/// numbers themselves, so that comparing patterns compares numbers.
pub proof fn lemma_patterns_order_as_numbers(a: u32, b: u32)
    requires
        is_finite(a),
        is_finite(b),
    ensures
        magnitude(a) < magnitude(b) <==> scaled_magnitude(a) < scaled_magnitude(b),
        magnitude(a) == magnitude(b) <==> scaled_magnitude(a) == scaled_magnitude(b),
{
    if magnitude(a) < magnitude(b) {
        lemma_scaled_magnitude_increases(a, b);
    } else if magnitude(b) < magnitude(a) {
        lemma_scaled_magnitude_increases(b, a);
    }
}

/// The threshold is the number 13421773 / 2^24, the single-precision number
/// nearest to 0.8, and a finite pattern is beyond the threshold exactly when
/// the magnitude of its number is greater than that.
pub proof fn lemma_threshold_as_number(bits: u32)
    requires
        is_finite(bits),
    ensures
        scaled_magnitude(THRESHOLD_BITS) == 13421773 * pow2(125),
        beyond_threshold(bits) <==> scaled_magnitude(bits) > scaled_magnitude(THRESHOLD_BITS),
{
    lemma_patterns_order_as_numbers(THRESHOLD_BITS, bits);
}

} // verus!
