//! Unsigned 256-bit integers.

use vstd::prelude::*;

verus! {

/// 2^128.
pub open spec fn half_modulus() -> nat {
    0x1_0000_0000_0000_0000_0000_0000_0000_0000nat
}

/// 2^256.
pub open spec fn modulus() -> nat {
    0x1_0000_0000_0000_0000_0000_0000_0000_0000_0000_0000_0000_0000_0000_0000_0000_0000nat
}

/// The largest 256-bit number.
pub open spec fn max_value() -> nat {
    (modulus() - 1) as nat
}

/// An unsigned 256-bit integer; its view is the number.
#[derive(Clone, Copy, PartialEq, Eq, Structural, Debug)]
pub struct U256 {
    /// The upper 128 bits.
    pub hi: u128,
    /// The lower 128 bits.
    pub lo: u128,
}

impl View for U256 {
    type V = nat;

    open spec fn view(&self) -> nat {
        self.hi as nat * half_modulus() + self.lo as nat
    }
}

impl U256 {
    /// Every value is below 2^256.
    pub proof fn lemma_bound(self)
        ensures
            self@ <= max_value(),
    {
    }

    /// The number 0.
    pub fn zero() -> (n: Self)
        ensures
            n@ == 0,
    {
        U256 { hi: 0, lo: 0 }
    }

    /// The number 2^256 - 1.
    pub fn max() -> (n: Self)
        ensures
            n@ == max_value(),
    {
        U256 { hi: u128::MAX, lo: u128::MAX }
    }

    /// The number `n`.
    pub fn from_u128(n: u128) -> (wide: Self)
        ensures
            wide@ == n,
    {
        U256 { hi: 0, lo: n }
    }

    /// Whether `self` is the smaller number.
    pub fn less_than(self, other: Self) -> (less: bool)
        ensures
            less == (self@ < other@),
    {
        let less = self.hi < other.hi || (self.hi == other.hi && self.lo < other.lo);
        less
    }

    /// Whether both are one number.
    pub fn equals(self, other: Self) -> (equal: bool)
        ensures
            equal == (self@ == other@),
    {
        self.hi == other.hi && self.lo == other.lo
    }

    /// The sum modulo 2^256.
    pub fn wrapping_add(self, other: Self) -> (sum: Self)
        ensures
            sum@ == (self@ + other@) % modulus(),
    {
        let lo: u128 = self.lo.wrapping_add(other.lo);
        let carry: u128 = if lo < self.lo { 1 } else { 0 };
        let hi: u128 = self.hi.wrapping_add(other.hi).wrapping_add(carry);
        U256 { hi, lo }
    }

    /// The difference of a number and one that is not larger.
    pub fn minus(self, other: Self) -> (difference: Self)
        requires
            other@ <= self@,
        ensures
            difference@ == self@ - other@,
    {
        if self.lo >= other.lo {
            U256 { hi: self.hi - other.hi, lo: self.lo - other.lo }
        } else {
            U256 { hi: self.hi - other.hi - 1, lo: self.lo.wrapping_sub(other.lo) }
        }
    }
}

/// The upper half weighs 2^128, every number below 2^256 has two halves, and different halves
/// make different numbers.
pub proof fn law_halves(a: U256, b: U256)
    ensures
        a@ == a.hi * 0x1_0000_0000_0000_0000_0000_0000_0000_0000 + a.lo,
        a@ == b@ <==> a.hi == b.hi && a.lo == b.lo,
        a@ < modulus(),
        max_value() + 1 == modulus(),
        modulus() == 0x1_0000_0000_0000_0000_0000_0000_0000_0000
            * 0x1_0000_0000_0000_0000_0000_0000_0000_0000,
{
}

} // verus!
