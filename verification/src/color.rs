//! Colours and their encoding for output: from a gamma-corrected channel to
//! a byte, and from three bytes to a line of text.
use crate::interval::Interval;
use crate::scalar::{Scalar, FRACTION_SPAN};
use crate::vec3::Vector3;
use vstd::arithmetic::div_mod::*;
use vstd::arithmetic::mul::*;
use vstd::arithmetic::power2::*;
use vstd::prelude::*;

verus! {

/// A colour in linear space: red, green and blue in `x`, `y` and `z`.
pub type Color = Vector3;

/// The brightest channel value that is written: the binary64 value written
/// `0.999`.
pub const INTENSITY_MAX_BITS: u64 = 0x3FEF_F7CE_D916_872B;

/// The space character.
pub const SPACE: u8 = 32;

/// The line feed character.
pub const NEWLINE: u8 = 10;

/// The range into which channels are clamped before they are written:
/// `[0, 0.999]`.
pub open spec fn intensity_spec() -> Interval {
    Interval { min: Scalar { bits: 0 }, max: Scalar { bits: INTENSITY_MAX_BITS } }
}

/// The gamma-corrected value of a linear channel whose square root is
/// `root`: the root for a positive channel, zero for any other.
pub open spec fn linear_to_gamma_spec(linear: Scalar, root: Scalar) -> Scalar {
    if linear.gt_spec(Scalar { bits: 0 }) {
        root
    } else {
        Scalar { bits: 0 }
    }
}

/// The byte of a gamma-corrected channel: the channel clamped into
/// `[0, 0.999]`, multiplied by 256, and cut to an integer. A channel that is
/// no number gives zero.
pub open spec fn channel_spec(gamma: Scalar) -> nat {
    let c = intensity_spec().clamps_spec(gamma);
    if c.is_nan_spec() {
        0
    } else {
        (c.size() * 256) / pow2(1074)
    }
}

/// The decimal digits of `n` in ASCII, without leading zeros.
pub open spec fn decimal(n: nat) -> Seq<u8>
    decreases n,
{
    if n < 10 {
        seq![(48 + n) as u8]
    } else {
        decimal(n / 10).push((48 + n % 10) as u8)
    }
}

/// The number that a sequence of ASCII digits writes.
pub open spec fn decimal_value(digits: Seq<u8>) -> int
    decreases digits.len(),
{
    if digits.len() == 0 {
        0
    } else {
        10 * decimal_value(digits.drop_last()) + (digits.last() - 48)
    }
}

/// One pixel as text: the three bytes in decimal, separated by spaces and
/// ended by a line feed.
pub open spec fn pixel_line(r: u8, g: u8, b: u8) -> Seq<u8> {
    decimal(r as nat).push(SPACE) + decimal(g as nat).push(SPACE) + decimal(b as nat).push(
        NEWLINE,
    )
}

/// The range `[0, 0.999]`.
pub fn intensity() -> (r: Interval)
    ensures
        r == intensity_spec(),
{
    Interval::new(Scalar::zero(), Scalar::from_bits(INTENSITY_MAX_BITS))
}

/// Gamma correction of one linear channel, given its square root.
pub fn linear_to_gamma(linear_component: Scalar, root: Scalar) -> (r: Scalar)
    ensures
        r == linear_to_gamma_spec(linear_component, root),
{
    if linear_component.gt(Scalar::zero()) {
        root
    } else {
        Scalar::zero()
    }
}

/// The byte of a gamma-corrected channel.
pub fn channel(gamma: Scalar) -> (r: u8)
    ensures
        r == channel_spec(gamma),
{
    let c = intensity().clamps(gamma);
    if c.is_nan() {
        return 0;
    }
    let mag = c.magnitude_bits();
    let e = mag / FRACTION_SPAN;
    let f = mag % FRACTION_SPAN;
    proof {
        lemma_clamped_magnitude(gamma);
        lemma_pow2_pos(1074);
    }
    if e < 1015 {
        proof {
            lemma_small_size(c);
            lemma_basic_div((c.size() * 256) as int, pow2(1074) as int);
        }
        return 0;
    }
    let sig = FRACTION_SPAN + f;
    let k = 1067 - e;
    proof {
        lemma_scale_down(c);
        vstd::bits::lemma_u64_shr_is_div(sig, k);
        lemma_pow2_strictly_increases(44, k as nat);
        lemma2_to64_rest();
        assert(sig / (pow2(k as nat) as u64) < 256) by {
            lemma_div_is_ordered_by_denominator(
                sig as int,
                0x2000_0000_0000,
                pow2(k as nat) as int,
            );
        }
    }
    let byte = sig >> k;
    byte as u8
}

/// Appends the decimal digits of `n`.
pub fn push_decimal(out: &mut Vec<u8>, n: u32)
    ensures
        final(out)@ == old(out)@ + decimal(n as nat),
    decreases n,
{
    if n >= 10 {
        push_decimal(out, n / 10);
    }
    let digit: u8 = 48 + (n % 10) as u8;
    out.push(digit);
    proof {
        if n >= 10 {
            assert(final(out)@ =~= old(out)@ + decimal((n / 10) as nat).push(digit));
        } else {
            assert(final(out)@ =~= old(out)@ + seq![digit]);
        }
    }
}

/// Appends one pixel as a line of text. `pixel_color` is the colour after
/// gamma correction; each channel is clamped into `[0, 0.999]`, scaled to
/// `0..=255` and written in decimal.
pub fn write_color(out: &mut Vec<u8>, pixel_color: &Color)
    ensures
        final(out)@ == old(out)@ + pixel_line(
            channel_spec(pixel_color.x) as u8,
            channel_spec(pixel_color.y) as u8,
            channel_spec(pixel_color.z) as u8,
        ),
{
    let rbyte = channel(pixel_color.x());
    let gbyte = channel(pixel_color.y());
    let bbyte = channel(pixel_color.z());
    push_decimal(out, rbyte as u32);
    out.push(SPACE);
    push_decimal(out, gbyte as u32);
    out.push(SPACE);
    push_decimal(out, bbyte as u32);
    out.push(NEWLINE);
    proof {
        assert(final(out)@ =~= old(out)@ + pixel_line(rbyte, gbyte, bbyte));
    }
}

/// Decimal text reads back as the number it was written from, holds digits
/// only, and begins with a zero for no number but zero.
pub proof fn lemma_decimal_reads_back(n: nat)
    ensures
        decimal_value(decimal(n)) == n,
        decimal(n).len() >= 1,
        forall|i: int| 0 <= i < decimal(n).len() ==> 48 <= #[trigger] decimal(n)[i] <= 57,
        decimal(n)[0] == 48 ==> n == 0,
    decreases n,
{
    let digits = decimal(n);
    if n >= 10 {
        lemma_decimal_reads_back(n / 10);
        assert(digits.drop_last() =~= decimal(n / 10));
        assert(digits.last() == 48 + n % 10);
        assert(digits[0] == decimal(n / 10)[0]);
    } else {
        assert(digits.drop_last() =~= Seq::<u8>::empty());
        assert(decimal_value(digits.drop_last()) == 0);
        assert(digits.last() == 48 + n);
    }
    assert(decimal_value(digits) == 10 * decimal_value(digits.drop_last()) + (digits.last() - 48));
}

/// A clamped channel that is a number lies between zero and `0.999`, so its
/// exponent field is below that of one.
proof fn lemma_clamped_magnitude(gamma: Scalar)
    requires
        !intensity_spec().clamps_spec(gamma).is_nan_spec(),
    ensures
        intensity_spec().clamps_spec(gamma).magnitude() <= INTENSITY_MAX_BITS,
        intensity_spec().clamps_spec(gamma).sign_spec() ==> intensity_spec().clamps_spec(
            gamma,
        ).magnitude() == 0,
        intensity_spec().clamps_spec(gamma).exponent_field() <= 1022,
{
    let c = intensity_spec().clamps_spec(gamma);
    let lo = intensity_spec().min;
    let hi = intensity_spec().max;
    crate::scalar::lemma_rank_orders(gamma, lo);
    crate::scalar::lemma_rank_orders(hi, gamma);
    crate::scalar::lemma_rank_orders(lo, hi);
    assert(lo.magnitude() == 0);
    assert(hi.magnitude() == INTENSITY_MAX_BITS);
    assert(c.magnitude() <= INTENSITY_MAX_BITS);
    assert(c.exponent_field() <= 1022) by {
        lemma_div_is_ordered(
            c.magnitude() as int,
            INTENSITY_MAX_BITS as int,
            FRACTION_SPAN as int,
        );
    }
}

/// Under the exponent field 1015 a value is below `2^-8`: 256 times its
/// size stays under `2^1074`.
proof fn lemma_small_size(c: Scalar)
    requires
        c.exponent_field() < 1015,
    ensures
        c.size() * 256 < pow2(1074),
{
    let s = c.shift();
    lemma_mod_bound(c.magnitude() as int, FRACTION_SPAN as int);
    assert(c.significand() < 2 * FRACTION_SPAN);
    lemma_pow2_pos(s);
    assert(c.size() < (2 * FRACTION_SPAN) * pow2(s)) by {
        lemma_mul_strict_inequality(
            c.significand() as int,
            (2 * FRACTION_SPAN) as int,
            pow2(s) as int,
        );
    }
    assert(pow2(s) <= pow2(1013)) by {
        if s < 1013 {
            lemma_pow2_strictly_increases(s, 1013);
        }
    }
    assert(pow2(53) == 2 * FRACTION_SPAN && pow2(8) == 256) by {
        lemma2_to64();
        lemma2_to64_rest();
    }
    assert(pow2(1074) == pow2(53) * pow2(1013) * pow2(8)) by {
        lemma_pow2_adds(53, 1013);
        lemma_pow2_adds(1066, 8);
    }
    assert((2 * FRACTION_SPAN) * pow2(s) <= pow2(53) * pow2(1013)) by {
        lemma_mul_left_inequality(pow2(53) as int, pow2(s) as int, pow2(1013) as int);
    }
    assert(c.size() * 256 < pow2(53) * pow2(1013) * 256) by {
        lemma_mul_strict_inequality(c.size() as int, (pow2(53) * pow2(1013)) as int, 256);
    }
}

/// For an exponent field `e` from 1015 to 1022, 256 times the value is the
/// significand divided by `2^(1067 - e)`.
proof fn lemma_scale_down(c: Scalar)
    requires
        1015 <= c.exponent_field() <= 1022,
    ensures
        (c.size() * 256) / pow2(1074) == c.significand() / pow2(
            (1067 - c.exponent_field()) as nat,
        ),
{
    let e = c.exponent_field();
    let k = (1067 - e) as nat;
    let up = (e + 7) as nat;
    let sig = c.significand() as int;
    assert(pow2(8) == 256) by {
        lemma2_to64();
    }
    assert(pow2(up) == pow2(c.shift()) * 256) by {
        lemma_pow2_adds(c.shift(), 8);
    }
    assert(pow2(1074) == pow2(up) * pow2(k)) by {
        lemma_pow2_adds(up, k);
    }
    assert(c.size() * 256 == pow2(up) * sig) by {
        lemma_mul_is_associative(sig, pow2(c.shift()) as int, 256);
        lemma_mul_is_commutative(sig, pow2(up) as int);
    }
    lemma_pow2_pos(up);
    lemma_pow2_pos(k);
    lemma_div_multiples_vanish_quotient(pow2(up) as int, sig, pow2(k) as int);
}

/// The upper end of the intensity range is the binary64 value nearest to
/// `999 / 1000`.
pub proof fn lemma_intensity_max()
    ensures
        (Scalar { bits: INTENSITY_MAX_BITS }).approximates(999, 1000),
{
    let c = Scalar { bits: INTENSITY_MAX_BITS };
    assert(c.exponent_field() == 1022 && c.fraction_field() == 0xF_F7CE_D916_872B);
    lemma2_to64_rest();
    crate::scalar::lemma_approximates(c, 999, 1000, 53);
}

} // verus!
