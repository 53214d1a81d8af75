//! 256-bit unsigned words, held as four 64-bit limbs.
//!
//! The arithmetic on them is that of `alloy_primitives::U256`; this module
//! states what each operation returns over the value of a word.

use vstd::prelude::*;

verus! {

/// The radix of one limb, 2^64.
pub open spec fn limb_radix() -> nat {
    0x1_0000_0000_0000_0000
}

/// The number of values of a word, 2^256.
pub open spec fn modulus() -> nat {
    limb_radix() * limb_radix() * limb_radix() * limb_radix()
}

/// The number that four limbs stand for, least significant first.
pub open spec fn limbs_value(l0: u64, l1: u64, l2: u64, l3: u64) -> nat {
    l0 as nat + limb_radix() * (l1 as nat + limb_radix() * (l2 as nat + limb_radix() * (l3 as nat)))
}

/// An unsigned integer below 2^256. The limbs are least significant first.
#[derive(Clone, Copy, Debug)]
pub struct U256 {
    pub limbs: [u64; 4],
}

impl View for U256 {
    type V = nat;

    open spec fn view(&self) -> nat {
        limbs_value(self.limbs[0], self.limbs[1], self.limbs[2], self.limbs[3])
    }
}

impl PartialEq for U256 {
    fn eq(&self, other: &U256) -> (r: bool) {
        let r = self.limbs[0] == other.limbs[0] && self.limbs[1] == other.limbs[1]
            && self.limbs[2] == other.limbs[2] && self.limbs[3] == other.limbs[3];
        proof {
            if r {
                assert(self.limbs =~= other.limbs);
            }
        }
        r
    }
}

impl vstd::std_specs::cmp::PartialEqSpecImpl for U256 {
    open spec fn obeys_eq_spec() -> bool {
        true
    }

    open spec fn eq_spec(&self, other: &U256) -> bool {
        *self == *other
    }
}

impl Eq for U256 {}

impl From<u64> for U256 {
    fn from(n: u64) -> (r: U256) {
        U256 { limbs: [n, 0, 0, 0] }
    }
}

impl vstd::std_specs::convert::FromSpecImpl<u64> for U256 {
    open spec fn obeys_from_spec() -> bool {
        true
    }

    open spec fn from_spec(n: u64) -> U256 {
        U256 { limbs: [n, 0, 0, 0] }
    }
}

impl U256 {
    /// The word of value zero.
    pub fn zero() -> (r: U256)
        ensures
            r@ == 0,
    {
        U256 { limbs: [0, 0, 0, 0] }
    }

    /// The word of value `n`.
    pub fn from_usize(n: usize) -> (r: U256)
        ensures
            r@ == n,
    {
        U256 { limbs: [n as u64, 0, 0, 0] }
    }

    /// The value as an index, where it is below `bound`.
    pub fn index_below(&self, bound: usize) -> (r: Option<usize>)
        ensures
            r.is_some() <==> self@ < bound,
            r.is_some() ==> r.unwrap() == self@,
    {
        if self.limbs[1] == 0 && self.limbs[2] == 0 && self.limbs[3] == 0 && self.limbs[0] < bound as u64 {
            Some(self.limbs[0] as usize)
        } else {
            None
        }
    }
}

/// Every word is below the modulus.
pub proof fn lemma_value_bound(a: U256)
    ensures
        a@ < modulus(),
{
}

/// Two words of one value are one word.
pub proof fn lemma_value_injective(a: U256, b: U256)
    requires
        a@ == b@,
    ensures
        a == b,
{
    assert(a.limbs =~= b.limbs);
}

/// Sum modulo 2^256.
///
/// Calls `Add::add` of `alloy_primitives::U256`, which is `Uint::wrapping_add`
/// of `ruint`: the sum of the two values, reduced modulo 2^256.
#[verifier::external_body]
pub(crate) fn word_add(a: U256, b: U256) -> (r: U256)
    ensures
        r@ == (a@ + b@) % modulus(),
{
    let x = alloy_primitives::U256::from_limbs(a.limbs);
    let y = alloy_primitives::U256::from_limbs(b.limbs);
    U256 { limbs: (x + y).into_limbs() }
}

/// Product modulo 2^256.
///
/// Calls `Mul::mul` of `alloy_primitives::U256`, which is `Uint::wrapping_mul`
/// of `ruint`: the product of the two values, reduced modulo 2^256.
#[verifier::external_body]
pub(crate) fn word_mul(a: U256, b: U256) -> (r: U256)
    ensures
        r@ == (a@ * b@) % modulus(),
{
    let x = alloy_primitives::U256::from_limbs(a.limbs);
    let y = alloy_primitives::U256::from_limbs(b.limbs);
    U256 { limbs: (x * y).into_limbs() }
}

/// Quotient, rounded down.
///
/// Calls `Div::div` of `alloy_primitives::U256`, which is `Uint::wrapping_div`
/// of `ruint`: the quotient of the two values rounded down. It panics on a
/// zero divisor, which the precondition leaves out.
#[verifier::external_body]
pub(crate) fn word_div(a: U256, b: U256) -> (r: U256)
    requires
        b@ != 0,
    ensures
        r@ == a@ / b@,
{
    let x = alloy_primitives::U256::from_limbs(a.limbs);
    let y = alloy_primitives::U256::from_limbs(b.limbs);
    U256 { limbs: (x / y).into_limbs() }
}

/// Whether the first value is below the second.
///
/// Calls `PartialOrd::lt` of `alloy_primitives::U256`, which orders words by
/// their values.
#[verifier::external_body]
pub(crate) fn word_lt(a: U256, b: U256) -> (r: bool)
    ensures
        r == (a@ < b@),
{
    let x = alloy_primitives::U256::from_limbs(a.limbs);
    let y = alloy_primitives::U256::from_limbs(b.limbs);
    x < y
}

} // verus!
