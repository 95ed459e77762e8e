//! Unsigned 256-bit quantities, used for token identifiers, balances and
//! supplies. A value is two 128-bit limbs; its mathematical meaning is
//! [`U256::as_nat`].

use vstd::prelude::*;

verus! {

/// One above the largest value a [`U256`] can hold (2^128).
pub open spec fn limb_bound() -> nat {
    0x1_0000_0000_0000_0000_0000_0000_0000_0000nat
}

/// One above the largest value a [`U256`] can hold (2^256).
pub open spec fn u256_bound() -> nat {
    0x1_0000_0000_0000_0000_0000_0000_0000_0000_0000_0000_0000_0000_0000_0000_0000_0000nat
}

/// An unsigned 256-bit integer: `lo` holds the low 128 bits, `hi` the high 128.
#[derive(Clone, Copy, PartialEq, Eq, Structural, Debug, Hash)]
pub struct U256 {
    pub lo: u128,
    pub hi: u128,
}

impl U256 {
    /// The numeric value of this quantity.
    pub open spec fn as_nat(self) -> nat {
        (self.lo + self.hi * limb_bound()) as nat
    }

    /// The canonical 256-bit representation of a number below 2^256.
    pub open spec fn of_nat(n: nat) -> U256 {
        U256 { lo: (n % limb_bound()) as u128, hi: (n / limb_bound()) as u128 }
    }

    /// `of_nat` inverts `as_nat`.
    pub proof fn lemma_of_nat_as_nat(self)
        ensures
            U256::of_nat(self.as_nat()) == self,
    {
        vstd::arithmetic::div_mod::lemma_fundamental_div_mod_converse(
            self.as_nat() as int, limb_bound() as int, self.hi as int, self.lo as int);
    }

    pub fn zero() -> (r: U256)
        ensures
            r.as_nat() == 0,
    {
        U256 { lo: 0, hi: 0 }
    }

    pub fn one() -> (r: U256)
        ensures
            r.as_nat() == 1,
    {
        U256 { lo: 1, hi: 0 }
    }

    pub fn from_u128(x: u128) -> (r: U256)
        ensures
            r.as_nat() == x,
    {
        U256 { lo: x, hi: 0 }
    }

    pub fn is_zero(&self) -> (r: bool)
        ensures
            r == (self.as_nat() == 0),
    {
        self.lo == 0 && self.hi == 0
    }

    /// Addition; the caller shows the sum stays below 2^256.
    pub fn plus(self, other: U256) -> (r: U256)
        requires
            self.as_nat() + other.as_nat() < u256_bound(),
        ensures
            r.as_nat() == self.as_nat() + other.as_nat(),
    {
        let carry: bool = self.lo > u128::MAX - other.lo;
        let lo: u128 = if carry {
            self.lo - (u128::MAX - other.lo) - 1
        } else {
            self.lo + other.lo
        };
        assert(lo + (if carry { limb_bound() } else { 0nat }) == self.lo + other.lo);
        let c: u128 = if carry { 1 } else { 0 };
        assert(self.hi + other.hi + c < limb_bound());
        let hi: u128 = self.hi + other.hi + c;
        U256 { lo, hi }
    }

    /// Subtraction; the caller shows no underflow.
    pub fn minus(self, other: U256) -> (r: U256)
        requires
            other.as_nat() <= self.as_nat(),
        ensures
            r.as_nat() == self.as_nat() - other.as_nat(),
    {
        let borrow: bool = self.lo < other.lo;
        let lo: u128 = if borrow {
            self.lo + ((u128::MAX - other.lo) + 1)
        } else {
            self.lo - other.lo
        };
        assert(lo == self.lo + (if borrow { limb_bound() } else { 0nat }) - other.lo);
        let b: u128 = if borrow { 1 } else { 0 };
        assert(other.hi + b <= self.hi);
        let hi: u128 = self.hi - other.hi - b;
        U256 { lo, hi }
    }

    /// Strictly-less comparison of the numeric values.
    pub fn lt(&self, other: &U256) -> (r: bool)
        ensures
            r == (self.as_nat() < other.as_nat()),
    {
        if self.hi != other.hi {
            self.hi < other.hi
        } else {
            self.lo < other.lo
        }
    }
}

} // verus!
