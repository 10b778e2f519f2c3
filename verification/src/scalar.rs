//! Real numbers as they travel through the renderer: IEEE 754 binary64
//! values, held by their bit pattern.
//!
//! This crate never rounds. Every operation defined here is exact on the
//! encoding: ordering, sign changes, selection of one of two values, and
//! conversion to an integer. Sums, products, quotients and roots are the
//! caller's business; their results enter as bit patterns.
//!
//! The meaning of a pattern is given by [`Scalar::scaled`]: the encoded value
//! multiplied by `2^1074`, which is an integer for every finite value.
use vstd::arithmetic::mul::*;
use vstd::arithmetic::power2::*;
use vstd::prelude::*;
use vstd::std_specs::cmp::PartialEqSpecImpl;

verus! {

/// The sign bit of an encoding.
pub const SIGN_BIT: u64 = 0x8000_0000_0000_0000;

/// The encoding of positive infinity; every larger magnitude is a NaN.
pub const INFINITY_BITS: u64 = 0x7FF0_0000_0000_0000;

/// The encoding of one.
pub const ONE_BITS: u64 = 0x3FF0_0000_0000_0000;

/// `2^52`: the number of fraction patterns under one exponent.
pub const FRACTION_SPAN: u64 = 0x0010_0000_0000_0000;

/// The encoding with its sign bit flipped.
pub open spec fn flip(bits: u64) -> u64 {
    if bits >= SIGN_BIT {
        (bits - SIGN_BIT) as u64
    } else {
        (bits + SIGN_BIT) as u64
    }
}

/// A binary64 value, held by its bit pattern.
#[derive(Clone, Copy, Debug)]
pub struct Scalar {
    pub bits: u64,
}

impl Scalar {
    /// The encoding without its sign bit.
    pub open spec fn magnitude(self) -> nat {
        if self.bits >= SIGN_BIT {
            (self.bits - SIGN_BIT) as nat
        } else {
            self.bits as nat
        }
    }

    /// Whether the sign bit is set. This holds of `-0` too.
    pub open spec fn sign_spec(self) -> bool {
        self.bits >= SIGN_BIT
    }

    /// Whether the pattern encodes no number.
    pub open spec fn is_nan_spec(self) -> bool {
        self.magnitude() > INFINITY_BITS
    }

    /// Whether the pattern encodes positive or negative infinity.
    pub open spec fn is_infinite_spec(self) -> bool {
        self.magnitude() == INFINITY_BITS
    }

    /// Whether the pattern encodes a real number.
    pub open spec fn is_finite_spec(self) -> bool {
        self.magnitude() < INFINITY_BITS
    }

    /// The biased exponent field, `0..=2047`.
    pub open spec fn exponent_field(self) -> nat {
        self.magnitude() / (FRACTION_SPAN as nat)
    }

    /// The fraction field, below `2^52`.
    pub open spec fn fraction_field(self) -> nat {
        self.magnitude() % (FRACTION_SPAN as nat)
    }

    /// The integer significand: the fraction, with the implicit leading bit
    /// for every exponent field but zero.
    pub open spec fn significand(self) -> nat {
        if self.exponent_field() == 0 {
            self.fraction_field()
        } else {
            FRACTION_SPAN as nat + self.fraction_field()
        }
    }

    /// The power of two by which the significand is multiplied in `size`.
    pub open spec fn shift(self) -> nat {
        if self.exponent_field() == 0 {
            0
        } else {
            (self.exponent_field() - 1) as nat
        }
    }

    /// The absolute value, multiplied by `2^1074`. An infinity gets
    /// `2^2098`, which lies above the size of every finite value.
    pub open spec fn size(self) -> nat {
        self.significand() * pow2(self.shift())
    }

    /// The value, multiplied by `2^1074`. Both zeros give `0`; an infinity
    /// gives `2^2098` with its sign. It says nothing of a NaN.
    pub open spec fn scaled(self) -> int {
        if self.sign_spec() {
            -(self.size() as int)
        } else {
            self.size() as int
        }
    }

    /// `self < other` as IEEE 754 orders binary64 values: false when either
    /// side is a NaN.
    pub open spec fn lt_spec(self, other: Scalar) -> bool {
        !self.is_nan_spec() && !other.is_nan_spec() && self.scaled() < other.scaled()
    }

    /// `self <= other` as IEEE 754 orders binary64 values.
    pub open spec fn le_spec(self, other: Scalar) -> bool {
        !self.is_nan_spec() && !other.is_nan_spec() && self.scaled() <= other.scaled()
    }

    /// `self == other` as IEEE 754 compares binary64 values: the two zeros
    /// are equal, and a NaN equals nothing.
    pub open spec fn same_value(self, other: Scalar) -> bool {
        !self.is_nan_spec() && !other.is_nan_spec() && self.scaled() == other.scaled()
    }

    /// The position of a non-NaN value on the integer line: its magnitude,
    /// negated under a sign bit.
    pub open spec fn rank(self) -> int {
        if self.sign_spec() {
            -(self.magnitude() as int)
        } else {
            self.magnitude() as int
        }
    }

    /// `self > other` as IEEE 754 orders binary64 values.
    pub open spec fn gt_spec(self, other: Scalar) -> bool {
        other.lt_spec(self)
    }

    /// `self >= other` as IEEE 754 orders binary64 values.
    pub open spec fn ge_spec(self, other: Scalar) -> bool {
        other.le_spec(self)
    }

    /// The larger of two values. A NaN gives way to the other side; of two
    /// equal values, such as the two zeros, `self` is taken.
    pub open spec fn max_spec(self, other: Scalar) -> Scalar {
        if self.is_nan_spec() {
            other
        } else if other.is_nan_spec() {
            self
        } else if self.scaled() < other.scaled() {
            other
        } else {
            self
        }
    }

    /// The smaller of two values. A NaN gives way to the other side; of two
    /// equal values, such as the two zeros, `self` is taken.
    pub open spec fn min_spec(self, other: Scalar) -> Scalar {
        if self.is_nan_spec() {
            other
        } else if other.is_nan_spec() {
            self
        } else if other.scaled() < self.scaled() {
            other
        } else {
            self
        }
    }

    /// The nearest integer, a half going away from zero, held into the
    /// range of `u32`: zero for a negative value and for a NaN, `u32::MAX`
    /// for every value from `2^32 - 1/2` on.
    pub open spec fn round_u32_spec(self) -> nat {
        if self.is_nan_spec() || self.sign_spec() {
            0
        } else {
            let n = (2 * self.size() + pow2(1074)) / pow2(1075);
            if n > u32::MAX {
                u32::MAX as nat
            } else {
                n
            }
        }
    }

    /// Whether `self` is a positive finite value within half a unit in the
    /// last place of the fraction `num / den`: no binary64 value of its
    /// exponent lies nearer to the fraction.
    pub open spec fn approximates(self, num: nat, den: nat) -> bool {
        let error = self.size() * den - num * pow2(1074);
        &&& !self.sign_spec()
        &&& self.is_finite_spec()
        &&& -(den * pow2(self.shift())) <= 2 * error <= den * pow2(self.shift())
    }

    /// The value with the given encoding.
    pub fn from_bits(bits: u64) -> (r: Scalar)
        ensures
            r.bits == bits,
    {
        Scalar { bits }
    }

    /// The encoding.
    pub fn to_bits(self) -> (r: u64)
        ensures
            r == self.bits,
    {
        self.bits
    }

    /// Positive zero.
    pub fn zero() -> (r: Scalar)
        ensures
            r.bits == 0,
            r.scaled() == 0,
            !r.is_nan_spec(),
    {
        let r = Scalar { bits: 0 };
        proof {
            lemma_size_zero(r);
        }
        r
    }

    /// One: significand `2^52` under the exponent field 1023.
    pub fn one() -> (r: Scalar)
        ensures
            r.bits == ONE_BITS,
            r.scaled() == pow2(1074),
            !r.is_nan_spec(),
    {
        let r = Scalar { bits: ONE_BITS };
        proof {
            assert(r.exponent_field() == 1023);
            assert(r.fraction_field() == 0);
            lemma_pow2_adds(52, 1022);
            lemma2_to64_rest();
        }
        r
    }

    /// Positive infinity: above every finite value.
    pub fn infinity() -> (r: Scalar)
        ensures
            r.bits == INFINITY_BITS,
            r.is_infinite_spec(),
            !r.sign_spec(),
    {
        Scalar { bits: INFINITY_BITS }
    }

    /// Negative infinity: below every finite value.
    pub fn neg_infinity() -> (r: Scalar)
        ensures
            r.bits == SIGN_BIT + INFINITY_BITS,
            r.is_infinite_spec(),
            r.sign_spec(),
    {
        Scalar { bits: 0xFFF0_0000_0000_0000 }
    }

    /// The encoding without its sign bit.
    pub fn magnitude_bits(self) -> (r: u64)
        ensures
            r == self.magnitude(),
            r < SIGN_BIT,
    {
        if self.bits >= SIGN_BIT {
            self.bits - SIGN_BIT
        } else {
            self.bits
        }
    }

    /// Whether the sign bit is set.
    pub fn is_sign_negative(self) -> (r: bool)
        ensures
            r == self.sign_spec(),
    {
        self.bits >= SIGN_BIT
    }

    /// Whether the pattern encodes no number.
    pub fn is_nan(self) -> (r: bool)
        ensures
            r == self.is_nan_spec(),
    {
        self.magnitude_bits() > INFINITY_BITS
    }

    /// `self < other`.
    pub fn lt(self, other: Scalar) -> (r: bool)
        ensures
            r == self.lt_spec(other),
    {
        if self.is_nan() || other.is_nan() {
            return false;
        }
        proof {
            lemma_rank_orders(self, other);
        }
        let a = self.magnitude_bits();
        let b = other.magnitude_bits();
        if self.is_sign_negative() {
            if other.is_sign_negative() {
                b < a
            } else {
                a > 0 || b > 0
            }
        } else {
            if other.is_sign_negative() {
                false
            } else {
                a < b
            }
        }
    }

    /// `self <= other`.
    pub fn le(self, other: Scalar) -> (r: bool)
        ensures
            r == self.le_spec(other),
    {
        if self.is_nan() || other.is_nan() {
            return false;
        }
        proof {
            lemma_rank_orders(self, other);
        }
        let a = self.magnitude_bits();
        let b = other.magnitude_bits();
        if self.is_sign_negative() {
            if other.is_sign_negative() {
                b <= a
            } else {
                true
            }
        } else {
            if other.is_sign_negative() {
                a == 0 && b == 0
            } else {
                a <= b
            }
        }
    }

    /// `self > other`.
    pub fn gt(self, other: Scalar) -> (r: bool)
        ensures
            r == self.gt_spec(other),
    {
        other.lt(self)
    }

    /// `self >= other`.
    pub fn ge(self, other: Scalar) -> (r: bool)
        ensures
            r == self.ge_spec(other),
    {
        other.le(self)
    }

    /// `self == other` as numbers.
    pub fn eq_value(self, other: Scalar) -> (r: bool)
        ensures
            r == self.same_value(other),
    {
        if self.is_nan() || other.is_nan() {
            return false;
        }
        proof {
            lemma_rank_orders(self, other);
        }
        let a = self.magnitude_bits();
        let b = other.magnitude_bits();
        if self.is_sign_negative() == other.is_sign_negative() {
            a == b
        } else {
            a == 0 && b == 0
        }
    }

    /// The value with its sign bit flipped: `-self`. A NaN stays a NaN.
    pub fn neg(self) -> (r: Scalar)
        ensures
            r.bits == flip(self.bits),
            r.magnitude() == self.magnitude(),
            r.sign_spec() == !self.sign_spec(),
            r.scaled() == -self.scaled(),
    {
        if self.bits >= SIGN_BIT {
            Scalar { bits: self.bits - SIGN_BIT }
        } else {
            Scalar { bits: self.bits + SIGN_BIT }
        }
    }

    /// The value with its sign bit cleared: `|self|`. A NaN stays a NaN.
    pub fn abs(self) -> (r: Scalar)
        ensures
            r.bits == self.magnitude(),
            !r.sign_spec(),
            r.scaled() == self.size(),
    {
        Scalar { bits: self.magnitude_bits() }
    }

    /// The larger of two values.
    pub fn max(self, other: Scalar) -> (r: Scalar)
        ensures
            r == self.max_spec(other),
    {
        if self.is_nan() {
            other
        } else if other.is_nan() {
            self
        } else if self.lt(other) {
            other
        } else {
            self
        }
    }

    /// The smaller of two values.
    pub fn min(self, other: Scalar) -> (r: Scalar)
        ensures
            r == self.min_spec(other),
    {
        if self.is_nan() {
            other
        } else if other.is_nan() {
            self
        } else if other.lt(self) {
            other
        } else {
            self
        }
    }

    /// The value rounded to the nearest integer and held into `u32`.
    pub fn round_u32(self) -> (r: u32)
        ensures
            r == self.round_u32_spec(),
    {
        if self.is_nan() || self.is_sign_negative() {
            return 0;
        }
        let mag = self.magnitude_bits();
        let e = mag / FRACTION_SPAN;
        let f = mag % FRACTION_SPAN;
        proof {
            lemma_pow2_pos(1075);
        }
        if e < 1022 {
            proof {
                lemma_below_half(self);
                vstd::arithmetic::div_mod::lemma_basic_div(
                    (2 * self.size() + pow2(1074)) as int,
                    pow2(1075) as int,
                );
            }
            return 0;
        }
        if e >= 1055 {
            proof {
                lemma_beyond_u32(self);
            }
            return u32::MAX;
        }
        let sig = FRACTION_SPAN + f;
        let k = 1075 - e;
        proof {
            lemma_round_quotient(self);
            lemma2_to64_rest();
            lemma_pow2_pos((k - 1) as nat);
            if k - 1 < 52 {
                lemma_pow2_strictly_increases((k - 1) as nat, 52);
            }
            vstd::bits::lemma_u64_shl_is_mul(1, (k - 1) as u64);
        }
        let half = 1u64 << (k - 1);
        proof {
            vstd::bits::lemma_u64_shr_is_div((sig + half) as u64, k);
        }
        let n = (sig + half) >> k;
        if n > 0xFFFF_FFFF {
            u32::MAX
        } else {
            n as u32
        }
    }
}

impl PartialEq for Scalar {
    /// Equality of values: the two zeros are equal, a NaN equals nothing.
    fn eq(&self, other: &Scalar) -> (r: bool) {
        self.eq_value(*other)
    }
}

impl PartialEqSpecImpl for Scalar {
    open spec fn obeys_eq_spec() -> bool {
        true
    }

    open spec fn eq_spec(&self, other: &Scalar) -> bool {
        self.same_value(*other)
    }
}

/// A value approximates a fraction where its significand, taken as a
/// multiple of `2^-k` with `k` one more than the number of fraction bits
/// below the binary point, lies within one half of the fraction so scaled.
pub proof fn lemma_approximates(c: Scalar, num: nat, den: nat, k: nat)
    requires
        !c.sign_spec(),
        1 <= c.exponent_field() < 2047,
        k == 1075 - c.exponent_field(),
        -(den as int) <= 2 * (c.significand() * den - num * pow2(k)) <= den,
    ensures
        c.approximates(num, den),
{
    let unit = pow2(c.shift()) as int;
    let sig = c.significand() as int;
    let err = sig * den - num * pow2(k);
    lemma_pow2_pos(c.shift());
    assert(pow2(1074) == unit * pow2(k)) by {
        lemma_pow2_adds(c.shift(), k);
    }
    assert(c.size() * den - num * pow2(1074) == unit * err) by {
        lemma_mul_is_commutative(sig, unit);
        lemma_mul_is_associative(unit, sig, den as int);
        lemma_mul_is_associative(num as int, unit, pow2(k) as int);
        lemma_mul_is_commutative(num as int, unit);
        lemma_mul_is_associative(unit, num as int, pow2(k) as int);
        lemma_mul_is_distributive_sub(unit, sig * den, (num * pow2(k)) as int);
    }
    assert(2 * (unit * err) == unit * (2 * err)) by {
        lemma_mul_is_associative(2, unit, err);
        lemma_mul_is_commutative(2, unit);
        lemma_mul_is_associative(unit, 2, err);
    }
    assert(unit * (2 * err) <= unit * den) by {
        lemma_mul_left_inequality(unit, 2 * err, den as int);
    }
    assert(unit * (-(den as int)) <= unit * (2 * err)) by {
        lemma_mul_left_inequality(unit, -(den as int), 2 * err);
    }
    assert(unit * (-(den as int)) == -(den * unit)) by {
        lemma_mul_unary_negation(unit, den as int);
        lemma_mul_is_commutative(unit, den as int);
    }
    assert(unit * den == den * unit) by {
        lemma_mul_is_commutative(unit, den as int);
    }
    assert(c.magnitude() < INFINITY_BITS) by {
        vstd::arithmetic::div_mod::lemma_fundamental_div_mod(
            c.magnitude() as int,
            FRACTION_SPAN as int,
        );
        vstd::arithmetic::div_mod::lemma_mod_bound(c.magnitude() as int, FRACTION_SPAN as int);
        lemma_mul_inequality(c.exponent_field() as int, 2046, FRACTION_SPAN as int);
        lemma_mul_is_commutative(c.exponent_field() as int, FRACTION_SPAN as int);
    }
}

/// Under the exponent field 1022 a value is below one half.
proof fn lemma_below_half(a: Scalar)
    requires
        a.exponent_field() < 1022,
    ensures
        2 * a.size() + pow2(1074) < pow2(1075),
{
    let s = a.shift();
    vstd::arithmetic::div_mod::lemma_mod_bound(a.magnitude() as int, FRACTION_SPAN as int);
    lemma_pow2_pos(s);
    assert(a.size() < (2 * FRACTION_SPAN) * pow2(s)) by {
        lemma_mul_strict_inequality(
            a.significand() as int,
            (2 * FRACTION_SPAN) as int,
            pow2(s) as int,
        );
    }
    assert(pow2(s) <= pow2(1020)) by {
        if s < 1020 {
            lemma_pow2_strictly_increases(s, 1020);
        }
    }
    assert(pow2(53) == 2 * FRACTION_SPAN) by {
        lemma2_to64_rest();
    }
    assert((2 * FRACTION_SPAN) * pow2(s) <= pow2(53) * pow2(1020)) by {
        lemma_mul_left_inequality(pow2(53) as int, pow2(s) as int, pow2(1020) as int);
    }
    assert(pow2(53) * pow2(1020) == pow2(1073)) by {
        lemma_pow2_adds(53, 1020);
    }
    assert(pow2(1074) == 2 * pow2(1073) && pow2(1075) == 2 * pow2(1074)) by {
        lemma_pow2_unfold(1074);
        lemma_pow2_unfold(1075);
    }
}

/// From the exponent field 1055 on a value is at least `2^32`.
proof fn lemma_beyond_u32(a: Scalar)
    requires
        a.exponent_field() >= 1055,
    ensures
        (2 * a.size() + pow2(1074)) / pow2(1075) > u32::MAX,
{
    let s = a.shift();
    lemma_pow2_pos(s);
    lemma_pow2_pos(1074);
    lemma_pow2_pos(1075);
    assert(pow2(1054) <= pow2(s)) by {
        if 1054 < s {
            lemma_pow2_strictly_increases(1054, s);
        }
    }
    assert(a.size() >= FRACTION_SPAN * pow2(1054)) by {
        lemma_mul_inequality(FRACTION_SPAN as int, a.significand() as int, pow2(s) as int);
        lemma_mul_left_inequality(FRACTION_SPAN as int, pow2(1054) as int, pow2(s) as int);
    }
    assert(pow2(52) == FRACTION_SPAN && pow2(32) == 0x1_0000_0000) by {
        lemma2_to64();
        lemma2_to64_rest();
    }
    assert(2 * (FRACTION_SPAN * pow2(1054)) == pow2(32) * pow2(1075)) by {
        lemma_pow2_adds(52, 1054);
        lemma_pow2_unfold(1107);
        lemma_pow2_adds(32, 1075);
    }
    let x = (2 * a.size() + pow2(1074)) as int;
    assert(x >= pow2(32) * pow2(1075));
    vstd::arithmetic::div_mod::lemma_div_is_ordered(
        (pow2(32) * pow2(1075)) as int,
        x,
        pow2(1075) as int,
    );
    vstd::arithmetic::div_mod::lemma_div_multiples_vanish(pow2(32) as int, pow2(1075) as int);
    lemma_mul_is_commutative(pow2(32) as int, pow2(1075) as int);
}

/// For an exponent field `e` from 1022 to 1054, rounding divides the
/// significand, with half a unit added, by `2^(1075 - e)`.
proof fn lemma_round_quotient(a: Scalar)
    requires
        1022 <= a.exponent_field() <= 1054,
    ensures
        (2 * a.size() + pow2(1074)) / pow2(1075) == (a.significand() + pow2(
            (1074 - a.exponent_field()) as nat,
        )) / pow2((1075 - a.exponent_field()) as nat),
{
    let e = a.exponent_field();
    let k = (1075 - e) as nat;
    let sig = a.significand() as int;
    let half = pow2((k - 1) as nat) as int;
    let base = pow2(e) as int;
    assert(pow2(e) == 2 * pow2(a.shift())) by {
        lemma_pow2_unfold(e);
    }
    assert(2 * a.size() == base * sig) by {
        lemma_mul_is_associative(2, sig, pow2(a.shift()) as int);
        lemma_mul_is_commutative(sig, pow2(a.shift()) as int);
        lemma_mul_is_associative(2, pow2(a.shift()) as int, sig);
    }
    assert(pow2(1074) == base * half) by {
        lemma_pow2_adds(e, (k - 1) as nat);
    }
    assert(pow2(1075) == base * pow2(k)) by {
        lemma_pow2_adds(e, k);
    }
    assert(2 * a.size() + pow2(1074) == base * (sig + half)) by {
        lemma_mul_is_distributive_add(base, sig, half);
    }
    lemma_pow2_pos(e);
    lemma_pow2_pos(k);
    vstd::arithmetic::div_mod::lemma_div_multiples_vanish_quotient(
        base,
        sig + half,
        pow2(k) as int,
    );
}

/// Encodings in the order of their magnitudes have sizes in the same order.
pub proof fn lemma_size_increases(a: Scalar, b: Scalar)
    requires
        a.magnitude() < b.magnitude(),
    ensures
        a.size() < b.size(),
{
    let span = FRACTION_SPAN as nat;
    let ea = a.exponent_field();
    let eb = b.exponent_field();
    let fa = a.fraction_field();
    let fb = b.fraction_field();
    assert(a.magnitude() == ea * span + fa && fa < span) by {
        vstd::arithmetic::div_mod::lemma_fundamental_div_mod(a.magnitude() as int, span as int);
        lemma_mul_is_commutative(ea as int, span as int);
    }
    assert(b.magnitude() == eb * span + fb && fb < span) by {
        vstd::arithmetic::div_mod::lemma_fundamental_div_mod(b.magnitude() as int, span as int);
        lemma_mul_is_commutative(eb as int, span as int);
    }
    assert(ea <= eb) by {
        vstd::arithmetic::div_mod::lemma_div_is_ordered(
            a.magnitude() as int,
            b.magnitude() as int,
            span as int,
        );
    }
    lemma_pow2_pos(a.shift());
    lemma_pow2_pos(b.shift());
    if ea == eb {
        assert(a.significand() < b.significand());
        lemma_mul_strict_inequality(
            a.significand() as int,
            b.significand() as int,
            pow2(a.shift()) as int,
        );
    } else {
        // b has an exponent field of at least one, so its size is at least
        // 2^52 * 2^(eb - 1).
        assert(b.size() >= span * pow2(b.shift())) by {
            lemma_mul_inequality(span as int, b.significand() as int, pow2(b.shift()) as int);
        }
        if ea == 0 {
            assert(pow2(0) == 1) by {
                lemma2_to64();
            }
            assert(a.size() == fa) by {
                lemma_mul_basics(fa as int);
            }
            assert(span * pow2(b.shift()) >= span) by {
                lemma_mul_inequality(1, pow2(b.shift()) as int, span as int);
                lemma_mul_is_commutative(span as int, pow2(b.shift()) as int);
            }
        } else {
            // a.size() < 2^53 * 2^(ea - 1) = 2^52 * 2^ea <= 2^52 * 2^(eb - 1)
            assert(a.size() < (2 * span) * pow2(a.shift())) by {
                lemma_mul_strict_inequality(
                    a.significand() as int,
                    (2 * span) as int,
                    pow2(a.shift()) as int,
                );
            }
            assert(pow2(ea) == 2 * pow2(a.shift())) by {
                lemma_pow2_unfold(ea);
            }
            assert((2 * span) * pow2(a.shift()) == span * pow2(ea)) by {
                lemma_mul_is_associative(span as int, 2, pow2(a.shift()) as int);
            }
            assert(pow2(ea) <= pow2(b.shift())) by {
                if ea < b.shift() {
                    lemma_pow2_strictly_increases(ea, b.shift());
                }
            }
            assert(span * pow2(ea) <= span * pow2(b.shift())) by {
                lemma_mul_left_inequality(span as int, pow2(ea) as int, pow2(b.shift()) as int);
            }
        }
    }
}

/// The order of values is the order of ranks: comparing two encodings by
/// sign and magnitude decides their order as numbers.
pub proof fn lemma_rank_orders(a: Scalar, b: Scalar)
    ensures
        a.scaled() < b.scaled() <==> a.rank() < b.rank(),
        a.scaled() == b.scaled() <==> a.rank() == b.rank(),
{
    if a.magnitude() < b.magnitude() {
        lemma_size_increases(a, b);
    }
    if b.magnitude() < a.magnitude() {
        lemma_size_increases(b, a);
    }
    lemma_size_zero(a);
    lemma_size_zero(b);
}

/// Only a zero has size zero.
pub proof fn lemma_size_zero(a: Scalar)
    ensures
        a.size() == 0 <==> a.magnitude() == 0,
{
    let zero = Scalar { bits: 0 };
    assert(zero.magnitude() == 0);
    assert(zero.exponent_field() == 0);
    assert(zero.fraction_field() == 0);
    assert(zero.size() == 0) by {
        lemma_mul_basics(pow2(0) as int);
    }
    if a.magnitude() > 0 {
        lemma_size_increases(zero, a);
    }
    if a.magnitude() == 0 {
        assert(a.exponent_field() == 0);
        assert(a.fraction_field() == 0);
        assert(a.size() == 0) by {
            lemma_mul_basics(pow2(0) as int);
        }
    }
}

} // verus!
