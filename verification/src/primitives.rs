//! Fixed-width values of the execution environment, held as plain integers.

use vstd::prelude::*;

verus! {

/// Two to the power 128, the weight of the high half of a 256-bit value.
pub open spec fn pow2_128() -> nat {
    0x1_0000_0000_0000_0000_0000_0000_0000_0000nat
}

/// A 160-bit account address: the high 32 bits and the low 128 bits.
#[derive(Clone, Copy, Debug, PartialEq, Eq, Structural)]
pub struct Address {
    pub hi: u32,
    pub lo: u128,
}

impl Address {
    /// The address whose bits are all zero.
    pub open spec fn spec_zero() -> Address {
        Address { hi: 0, lo: 0 }
    }

    /// The address whose bits are all zero.
    pub fn zero() -> (r: Address)
        ensures
            r == Address::spec_zero(),
    {
        Address { hi: 0, lo: 0 }
    }

    /// The address that holds `v` in its low 64 bits and zero above them.
    pub fn from_low_u64(v: u64) -> (r: Address)
        ensures
            r.hi == 0,
            r.lo == v,
    {
        Address { hi: 0, lo: v as u128 }
    }
}

impl Default for Address {
    fn default() -> (r: Address)
        ensures
            r == Address::spec_zero(),
    {
        Address::zero()
    }
}

/// A 256-bit digest: its high and low 128 bits.
#[derive(Clone, Copy, Debug, PartialEq, Eq, Structural)]
pub struct H256 {
    pub hi: u128,
    pub lo: u128,
}

impl H256 {
    /// The digest whose bits are all zero.
    pub open spec fn spec_zero() -> H256 {
        H256 { hi: 0, lo: 0 }
    }

    /// The digest whose bits are all zero.
    pub fn zero() -> (r: H256)
        ensures
            r == H256::spec_zero(),
    {
        H256 { hi: 0, lo: 0 }
    }

    /// The digest that holds `v` in its low 64 bits and zero above them.
    pub fn from_low_u64(v: u64) -> (r: H256)
        ensures
            r.hi == 0,
            r.lo == v,
    {
        H256 { hi: 0, lo: v as u128 }
    }
}

impl Default for H256 {
    fn default() -> (r: H256)
        ensures
            r == H256::spec_zero(),
    {
        H256::zero()
    }
}

/// A 256-bit unsigned word, as found on the stack: its high and low 128 bits.
///
/// Its view is the number it stands for.
#[derive(Clone, Copy, Debug, PartialEq, Eq, Structural)]
pub struct Word {
    pub hi: u128,
    pub lo: u128,
}

impl View for Word {
    type V = nat;

    open spec fn view(&self) -> nat {
        self.hi as nat * pow2_128() + self.lo as nat
    }
}

impl Word {
    /// The word that stands for zero.
    pub fn zero() -> (r: Word)
        ensures
            r@ == 0,
            r == (Word { hi: 0, lo: 0 }),
    {
        Word { hi: 0, lo: 0 }
    }

    /// The word that stands for `v`.
    pub fn from_u64(v: u64) -> (r: Word)
        ensures
            r@ == v,
            r == (Word { hi: 0, lo: v as u128 }),
    {
        Word { hi: 0, lo: v as u128 }
    }

    /// Whether the word stands for zero.
    pub fn is_zero(&self) -> (r: bool)
        ensures
            r == (self@ == 0),
    {
        proof {
            lemma_word_value(*self);
        }
        self.hi == 0 && self.lo == 0
    }

    /// Whether the number fits in 64 bits.
    pub fn fits_u64(&self) -> (r: bool)
        ensures
            r == (self@ <= u64::MAX),
    {
        proof {
            lemma_word_value(*self);
        }
        self.hi == 0 && self.lo <= 0xffff_ffff_ffff_ffff
    }

    /// The number as a `u64`, for a word that fits in 64 bits.
    pub fn as_u64(&self) -> (r: u64)
        requires
            self@ <= u64::MAX,
        ensures
            r == self@,
    {
        proof {
            lemma_word_value(*self);
        }
        self.lo as u64
    }
}

impl Default for Word {
    fn default() -> (r: Word)
        ensures
            r@ == 0,
            r == (Word { hi: 0, lo: 0 }),
    {
        Word::zero()
    }
}

/// The number a word stands for is its low half where the high half is zero,
/// and exceeds every 128-bit number where it is not. Only the word with both
/// halves zero stands for zero.
pub proof fn lemma_word_value(w: Word)
    ensures
        w.hi == 0 ==> w@ == w.lo,
        w.hi != 0 ==> w@ >= pow2_128(),
        w@ >= w.lo,
        w@ == 0 <==> w.hi == 0 && w.lo == 0,
{
    assert(w.hi != 0 ==> w.hi as nat * pow2_128() >= pow2_128()) by (nonlinear_arith)
        requires
            pow2_128() > 0,
    ;
}

} // verus!
