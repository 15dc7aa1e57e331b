//! Unsigned 256-bit magnitudes held as four little-endian 64-bit limbs.
use stylus_sdk::alloy_primitives::U256;
use vstd::arithmetic::mul::lemma_mul_inequality;
use vstd::prelude::*;

verus! {

/// 2^64, the weight of the second limb.
pub open spec fn limb_base() -> nat {
    0x1_0000_0000_0000_0000
}

/// The largest value a `Uint256` can hold: 2^256 - 1.
pub open spec fn word_max() -> nat {
    (limb_base() * limb_base() * limb_base() * limb_base() - 1) as nat
}

/// A 256-bit unsigned integer: `l0` holds the least significant 64 bits, `l3`
/// the most significant.
#[derive(Clone, Copy, Debug, PartialEq, Eq, Structural)]
pub struct Uint256 {
    pub l0: u64,
    pub l1: u64,
    pub l2: u64,
    pub l3: u64,
}

impl Uint256 {
    /// The integer this word stands for.
    pub open spec fn value(self) -> nat {
        self.l0 as nat + self.l1 as nat * limb_base() + self.l2 as nat * (limb_base()
            * limb_base()) + self.l3 as nat * (limb_base() * limb_base() * limb_base())
    }

    pub proof fn lemma_value_bounded(self)
        ensures
            self.value() <= word_max(),
    {
        let b = limb_base() as int;
        let b2 = b * b;
        let b3 = b2 * b;
        assert(b2 > 0 && b3 > 0) by (nonlinear_arith)
            requires
                b > 0,
                b2 == b * b,
                b3 == b2 * b,
        ;
        lemma_mul_inequality(self.l1 as int, b - 1, b);
        lemma_mul_inequality(self.l2 as int, b - 1, b2);
        lemma_mul_inequality(self.l3 as int, b - 1, b3);
        assert((b - 1) * b + (b - 1) * b2 + (b - 1) * b3 + (b - 1) == b3 * b - 1)
            by (nonlinear_arith)
            requires
                b2 == b * b,
                b3 == b2 * b,
        ;
    }

    pub fn from_u64(v: u64) -> (r: Uint256)
        ensures
            r.value() == v,
    {
        Uint256 { l0: v, l1: 0, l2: 0, l3: 0 }
    }

    pub fn zero() -> (r: Uint256)
        ensures
            r.value() == 0,
    {
        Uint256::from_u64(0)
    }

    pub fn max_value() -> (r: Uint256)
        ensures
            r.value() == word_max(),
    {
        let m = u64::MAX;
        let r = Uint256 { l0: m, l1: m, l2: m, l3: m };
        assert(r.value() == word_max());
        r
    }
    /// The value as a `u32`, for words known to be below 2^32.
    pub fn as_u32(self) -> (r: u32)
        requires
            self.value() <= u32::MAX,
        ensures
            r == self.value(),
    {
        proof {
            let b = limb_base() as int;
            assert(b * b * b >= b && b * b >= b) by (nonlinear_arith)
                requires
                    b > 1,
            ;
            assert(self.l1 as int * b >= 0 && self.l2 as int * (b * b) >= 0 && self.l3 as int * (b
                * b * b) >= 0) by (nonlinear_arith)
                requires
                    b > 0,
            ;
            if self.l1 > 0 {
                lemma_mul_inequality(1, self.l1 as int, b);
            }
            if self.l2 > 0 {
                lemma_mul_inequality(1, self.l2 as int, b * b);
            }
            if self.l3 > 0 {
                lemma_mul_inequality(1, self.l3 as int, b * b * b);
            }
        }
        self.l0 as u32
    }

    /// Relies on `Uint::saturating_add`: the sum, or the maximum where it overflows.
    #[verifier::external_body]
    pub(crate) fn saturating_add(self, rhs: Uint256) -> (r: Uint256)
        ensures
            r.value() == if self.value() + rhs.value() <= word_max() {
                self.value() + rhs.value()
            } else {
                word_max()
            },
    {
        let a = U256::from_limbs([self.l0, self.l1, self.l2, self.l3]);
        let b = U256::from_limbs([rhs.l0, rhs.l1, rhs.l2, rhs.l3]);
        let l = a.saturating_add(b).into_limbs();
        Uint256 { l0: l[0], l1: l[1], l2: l[2], l3: l[3] }
    }

    /// Relies on `Uint::saturating_sub`: the difference, or zero where it would be negative.
    #[verifier::external_body]
    pub(crate) fn saturating_sub(self, rhs: Uint256) -> (r: Uint256)
        ensures
            r.value() == if self.value() >= rhs.value() {
                (self.value() - rhs.value()) as nat
            } else {
                0
            },
    {
        let a = U256::from_limbs([self.l0, self.l1, self.l2, self.l3]);
        let b = U256::from_limbs([rhs.l0, rhs.l1, rhs.l2, rhs.l3]);
        let l = a.saturating_sub(b).into_limbs();
        Uint256 { l0: l[0], l1: l[1], l2: l[2], l3: l[3] }
    }

    /// Relies on `Uint::saturating_mul`: the product, or the maximum where it overflows.
    #[verifier::external_body]
    pub(crate) fn saturating_mul(self, rhs: Uint256) -> (r: Uint256)
        ensures
            r.value() == if self.value() * rhs.value() <= word_max() {
                self.value() * rhs.value()
            } else {
                word_max()
            },
    {
        let a = U256::from_limbs([self.l0, self.l1, self.l2, self.l3]);
        let b = U256::from_limbs([rhs.l0, rhs.l1, rhs.l2, rhs.l3]);
        let l = a.saturating_mul(b).into_limbs();
        Uint256 { l0: l[0], l1: l[1], l2: l[2], l3: l[3] }
    }

    /// Relies on `Uint`'s `/`: the quotient rounded down; it panics on a zero divisor.
    #[verifier::external_body]
    pub(crate) fn div(self, rhs: Uint256) -> (r: Uint256)
        requires
            rhs.value() > 0,
        ensures
            r.value() == self.value() / rhs.value(),
    {
        let a = U256::from_limbs([self.l0, self.l1, self.l2, self.l3]);
        let b = U256::from_limbs([rhs.l0, rhs.l1, rhs.l2, rhs.l3]);
        let l = (a / b).into_limbs();
        Uint256 { l0: l[0], l1: l[1], l2: l[2], l3: l[3] }
    }

    /// Relies on `Uint`'s `<`, which compares the numbers the limbs stand for.
    #[verifier::external_body]
    pub(crate) fn lt(self, rhs: Uint256) -> (r: bool)
        ensures
            r == (self.value() < rhs.value()),
    {
        U256::from_limbs([self.l0, self.l1, self.l2, self.l3]) < U256::from_limbs(
            [rhs.l0, rhs.l1, rhs.l2, rhs.l3],
        )
    }
}


} // verus!
