//! Fixed-width values that the transaction records are made of.

use vstd::prelude::*;

verus! {

/// A 256-bit unsigned integer, held as its upper and its lower 128 bits.
#[derive(Clone, Copy, Debug, PartialEq, Eq)]
pub struct U256 {
    pub hi: u128,
    pub lo: u128,
}

/// Two to the power 128: the first number that a 128-bit fee cannot hold.
pub open spec fn pow2_128() -> nat {
    0xffff_ffff_ffff_ffff_ffff_ffff_ffff_ffff + 1
}

impl U256 {
    /// The number that the two halves stand for: the upper half times two to
    /// the power 128, and the lower half.
    pub open spec fn value(self) -> nat {
        self.hi as nat * 0xffff_ffff_ffff_ffff_ffff_ffff_ffff_ffff + self.hi as nat + self.lo as nat
    }

    /// Widens a 64-bit number.
    pub fn from_u64(x: u64) -> (r: Self)
        ensures
            r.value() == x as nat,
    {
        U256 { hi: 0, lo: x as u128 }
    }

    /// Widens a 128-bit number.
    pub fn from_u128(x: u128) -> (r: Self)
        ensures
            r.value() == x as nat,
    {
        U256 { hi: 0, lo: x }
    }

    /// Narrows the number to 128 bits: `None` where it does not fit.
    pub fn to_u128(&self) -> (r: Option<u128>)
        ensures
            self.value() < pow2_128() ==> r == Some(self.value() as u128),
            self.value() >= pow2_128() ==> r.is_none(),
    {
        if self.hi == 0 {
            Some(self.lo)
        } else {
            None
        }
    }
}

} // verus!
