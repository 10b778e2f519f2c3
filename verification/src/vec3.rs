//! Triples of scalars: directions, points in space and colours.
use crate::scalar::{flip, Scalar, ONE_BITS};
use vstd::arithmetic::power2::{lemma2_to64, lemma_pow2_adds, pow2};
use vstd::prelude::*;
use vstd::std_specs::cmp::PartialEqSpecImpl;

verus! {

/// The bound under which a component counts as zero: the binary64 value
/// written `1e-8`.
pub const NEAR_ZERO_BITS: u64 = 0x3E45_798E_E230_8C3A;

/// The squared length under which a vector has no direction: the binary64
/// value written `1e-160`.
pub const DEGENERATE_BITS: u64 = 0x1EB6_7E9C_127B_6E74;

/// A vector of three components, also used for points and colours.
#[derive(Clone, Copy, Debug)]
pub struct Vector3 {
    pub x: Scalar,
    pub y: Scalar,
    pub z: Scalar,
}

impl PartialEq for Vector3 {
    /// Equality of values, component by component.
    fn eq(&self, other: &Vector3) -> (r: bool) {
        self.x.eq_value(other.x) && self.y.eq_value(other.y) && self.z.eq_value(other.z)
    }
}

impl PartialEqSpecImpl for Vector3 {
    open spec fn obeys_eq_spec() -> bool {
        true
    }

    open spec fn eq_spec(&self, other: &Vector3) -> bool {
        self.x.same_value(other.x) && self.y.same_value(other.y) && self.z.same_value(other.z)
    }
}

/// A position in space.
pub type Point3 = Vector3;

/// Whether the absolute value of `c` lies below the bound `1e-8`.
pub open spec fn tiny(c: Scalar) -> bool {
    (Scalar { bits: c.magnitude() as u64 }).lt_spec(Scalar { bits: NEAR_ZERO_BITS })
}

impl Vector3 {
    /// The vector with every component negated.
    pub open spec fn neg_spec(self) -> Vector3 {
        Vector3 {
            x: Scalar { bits: flip(self.x.bits) },
            y: Scalar { bits: flip(self.y.bits) },
            z: Scalar { bits: flip(self.z.bits) },
        }
    }

    /// Whether every component is smaller than `1e-8` in absolute value.
    pub open spec fn near_zero_spec(self) -> bool {
        tiny(self.x) && tiny(self.y) && tiny(self.z)
    }

    /// Whether a sample of the cube `[-1, 1)^3` with the given squared
    /// length is kept as the direction of a random unit vector: it is not
    /// too short to be normalised, and not outside the unit ball.
    pub open spec fn in_unit_ball_spec(length_squared: Scalar) -> bool {
        !length_squared.lt_spec(Scalar { bits: DEGENERATE_BITS }) && !length_squared.gt_spec(
            Scalar { bits: ONE_BITS },
        )
    }

    /// Whether a sample of the square `[-1, 1)^2` with the given squared
    /// length is kept as a point of the unit disk: it lies strictly inside.
    pub open spec fn in_unit_disk_spec(length_squared: Scalar) -> bool {
        length_squared.lt_spec(Scalar { bits: ONE_BITS })
    }

    /// The vector turned into the half-space of a normal with which it has
    /// the dot product `facing`: negated where the product is negative.
    pub open spec fn toward_spec(self, facing: Scalar) -> Vector3 {
        if facing.lt_spec(Scalar { bits: 0 }) {
            self.neg_spec()
        } else {
            self
        }
    }

    /// The vector with the given components.
    pub fn new(x: Scalar, y: Scalar, z: Scalar) -> (r: Vector3)
        ensures
            r.x == x,
            r.y == y,
            r.z == z,
    {
        Vector3 { x, y, z }
    }

    /// The zero vector: three positive zeros.
    pub fn new_default() -> (r: Vector3)
        ensures
            r.x.bits == 0,
            r.y.bits == 0,
            r.z.bits == 0,
    {
        Vector3 { x: Scalar::zero(), y: Scalar::zero(), z: Scalar::zero() }
    }

    /// The first component.
    pub fn x(&self) -> (r: Scalar)
        ensures
            r == self.x,
    {
        self.x
    }

    /// The second component.
    pub fn y(&self) -> (r: Scalar)
        ensures
            r == self.y,
    {
        self.y
    }

    /// The third component.
    pub fn z(&self) -> (r: Scalar)
        ensures
            r == self.z,
    {
        self.z
    }

    /// The opposite vector. Negation changes sign bits only, so it is exact.
    pub fn neg(&self) -> (r: Vector3)
        ensures
            r == self.neg_spec(),
            r.x.scaled() == -self.x.scaled(),
            r.y.scaled() == -self.y.scaled(),
            r.z.scaled() == -self.z.scaled(),
    {
        Vector3 { x: self.x.neg(), y: self.y.neg(), z: self.z.neg() }
    }

    /// Whether the vector is too short to serve as a direction: every
    /// component below `1e-8` in absolute value.
    pub fn near_zero(&self) -> (r: bool)
        ensures
            r == self.near_zero_spec(),
    {
        let s = Scalar::from_bits(NEAR_ZERO_BITS);
        self.x.abs().lt(s) && self.y.abs().lt(s) && self.z.abs().lt(s)
    }

    /// Whether a sample of the cube is kept for a random unit vector.
    pub fn in_unit_ball(length_squared: Scalar) -> (r: bool)
        ensures
            r == Vector3::in_unit_ball_spec(length_squared),
    {
        !length_squared.lt(Scalar::from_bits(DEGENERATE_BITS)) && !length_squared.gt(
            Scalar::one(),
        )
    }

    /// Whether a sample of the square is kept for a point of the unit disk.
    pub fn in_unit_disk(length_squared: Scalar) -> (r: bool)
        ensures
            r == Vector3::in_unit_disk_spec(length_squared),
    {
        length_squared.lt(Scalar::one())
    }

    /// The vector turned into the half-space of a normal.
    pub fn toward(&self, facing: Scalar) -> (r: Vector3)
        ensures
            r == self.toward_spec(facing),
    {
        if facing.lt(Scalar::zero()) {
            self.neg()
        } else {
            *self
        }
    }

    /// Whether a vector of the given squared length can be normalised: the
    /// squared length is not below `1e-160`. Below it, dividing by the
    /// length would leave the range of finite numbers.
    pub fn normalizable(length_squared: Scalar) -> (r: bool)
        ensures
            r == !length_squared.lt_spec(Scalar { bits: DEGENERATE_BITS }),
    {
        !length_squared.lt(Scalar::from_bits(DEGENERATE_BITS))
    }
}

/// The bound under which a component counts as zero is the binary64 value
/// nearest to `10^-8`.
pub proof fn lemma_near_zero_bound()
    ensures
        (Scalar { bits: NEAR_ZERO_BITS }).approximates(1, 100_000_000),
{
    let c = Scalar { bits: NEAR_ZERO_BITS };
    assert(c.exponent_field() == 996 && c.fraction_field() == 0x5_798E_E230_8C3A);
    assert(pow2(79) == 604462909807314587353088nat) by {
        lemma2_to64();
        lemma_pow2_adds(64, 15);
    }
    crate::scalar::lemma_approximates(c, 1, 100_000_000, 79);
}

/// The squared length under which a vector has no direction is the
/// binary64 value nearest to `10^-160`.
pub proof fn lemma_degenerate_bound()
    ensures
        (Scalar { bits: DEGENERATE_BITS }).approximates(
            1,
            10000000000000000000000000000000000000000000000000000000000000000000000000000000000000000000000000000000000000000000000000000000000000000000000000000000000000000nat,
        ),
{
    let c = Scalar { bits: DEGENERATE_BITS };
    assert(c.exponent_field() == 491 && c.fraction_field() == 0x6_7E9C_127B_6E74);
    lemma2_to64();
    assert(pow2(128) == 340282366920938463463374607431768211456nat) by {
        lemma_pow2_adds(64, 64);
    }
    assert(pow2(256)
        == 115792089237316195423570985008687907853269984665640564039457584007913129639936nat) by {
        lemma_pow2_adds(128, 128);
    }
    assert(pow2(512)
        == 13407807929942597099574024998205846127479365820592393377723561443721764030073546976801874298166903427690031858186486050853753882811946569946433649006084096nat)
        by {
        lemma_pow2_adds(256, 256);
    }
    assert(pow2(584)
        == 63316582777114760719488645381029680648993625369910231018000142359781689627272157995600998671678219517337003885060131670873949448782528309751691815706084650986651333670066978816nat)
        by {
        lemma_pow2_adds(512, 64);
        lemma_pow2_adds(576, 8);
    }
    crate::scalar::lemma_approximates(
        c,
        1,
        10000000000000000000000000000000000000000000000000000000000000000000000000000000000000000000000000000000000000000000000000000000000000000000000000000000000000000nat,
        584,
    );
}

} // verus!
