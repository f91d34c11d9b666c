//! Unsigned 256-bit amounts, counted in the smallest currency unit.
//!
//! An [`Amount`] holds four little-endian 64-bit words, the layout of
//! `ethers::types::U256`. Comparisons and conversions are verified here;
//! addition, subtraction, the full product and the wide division are done by
//! the `ethers` integer types behind small trusted functions.

use ethers::types::{U256, U512};
use vstd::prelude::*;

verus! {

/// 2^64: the weight of the second word.
pub open spec fn weight1() -> nat {
    0x1_0000_0000_0000_0000nat
}

/// 2^128: the weight of the third word.
pub open spec fn weight2() -> nat {
    0x1_0000_0000_0000_0000_0000_0000_0000_0000nat
}

/// 2^192: the weight of the fourth word.
pub open spec fn weight3() -> nat {
    0x1_0000_0000_0000_0000_0000_0000_0000_0000_0000_0000_0000_0000nat
}

/// 2^256: every [`Amount`] is below this bound.
pub open spec fn amount_limit() -> nat {
    0x1_0000_0000_0000_0000_0000_0000_0000_0000_0000_0000_0000_0000_0000_0000_0000_0000nat
}

/// The number that four little-endian words stand for.
pub open spec fn words_value(w: Seq<u64>) -> nat {
    w[0] as nat + w[1] as nat * weight1() + w[2] as nat * weight2() + w[3] as nat * weight3()
}

/// The number that words four to seven of an eight-word integer add to it.
pub open spec fn high_words_value(w: Seq<u64>) -> nat {
    amount_limit() * (w[4] as nat + w[5] as nat * weight1() + w[6] as nat * weight2() + w[7] as nat
        * weight3())
}

/// `x * factor / divisor`, rounded down, where that is an amount: the
/// divisor is not zero and the quotient is below 2^256.
pub open spec fn scaled(x: nat, factor: nat, divisor: nat) -> Option<nat> {
    if divisor > 0 && (x * factor) / divisor < amount_limit() {
        Some((x * factor) / divisor)
    } else {
        None
    }
}

/// An unsigned integer below 2^256.
#[derive(Clone, Copy, Debug)]
pub struct Amount {
    /// Little-endian words: `limbs[0]` is the least significant.
    pub limbs: [u64; 4],
}

impl View for Amount {
    type V = nat;

    open spec fn view(&self) -> nat {
        words_value(self.limbs@)
    }
}

/// An unsigned integer below 2^512: what a product of two amounts needs.
#[derive(Clone, Copy)]
struct Wide {
    limbs: [u64; 8],
}

impl View for Wide {
    type V = nat;

    closed spec fn view(&self) -> nat {
        words_value(self.limbs@) + high_words_value(self.limbs@)
    }
}

/// `U256::checked_add`: the sum of two amounts, or `None` when the sum does
/// not fit in 256 bits.
#[verifier::external_body]
fn sum_within_limit(a: Amount, b: Amount) -> (r: Option<Amount>)
    ensures
        a@ + b@ < amount_limit() ==> r.is_some() && r.unwrap()@ == a@ + b@,
        a@ + b@ >= amount_limit() ==> r.is_none(),
{
    match U256(a.limbs).checked_add(U256(b.limbs)) {
        Some(s) => Some(Amount { limbs: s.0 }),
        None => None,
    }
}

/// `U256::checked_sub`: the difference of two amounts, or `None` when the
/// second is the larger.
#[verifier::external_body]
fn difference_above_zero(a: Amount, b: Amount) -> (r: Option<Amount>)
    ensures
        a@ >= b@ ==> r.is_some() && r.unwrap()@ == a@ - b@,
        a@ < b@ ==> r.is_none(),
{
    match U256(a.limbs).checked_sub(U256(b.limbs)) {
        Some(d) => Some(Amount { limbs: d.0 }),
        None => None,
    }
}

/// `U256::full_mul`: the exact 512-bit product of two amounts.
#[verifier::external_body]
fn full_product(a: Amount, b: Amount) -> (r: Wide)
    ensures
        r@ == a@ * b@,
{
    Wide { limbs: U256(a.limbs).full_mul(U256(b.limbs)).0 }
}

/// `U512::div_mod`: quotient and remainder of a 512-bit division. The divisor
/// must not be zero, on which `div_mod` panics.
#[verifier::external_body]
fn wide_div_mod(n: Wide, d: Wide) -> (r: (Wide, Wide))
    requires
        d@ > 0,
    ensures
        r.0@ == n@ / d@,
        r.1@ == n@ % d@,
{
    let (q, m) = U512(n.limbs).div_mod(U512(d.limbs));
    (Wide { limbs: q.0 }, Wide { limbs: m.0 })
}

impl Wide {
    /// The same number in eight words.
    fn from_amount(a: Amount) -> (r: Wide)
        ensures
            r@ == a@,
    {
        Wide {
            limbs: [a.limbs[0], a.limbs[1], a.limbs[2], a.limbs[3], 0, 0, 0, 0],
        }
    }

    /// `self < other`.
    fn lt(&self, other: &Wide) -> (r: bool)
        ensures
            r == (self@ < other@),
    {
        let mut i: usize = 8;
        while i > 0
            invariant
                i <= 8,
                forall|j: int| i <= j < 8 ==> self.limbs@[j] == other.limbs@[j],
            decreases i,
        {
            i -= 1;
            if self.limbs[i] != other.limbs[i] {
                return self.limbs[i] < other.limbs[i];
            }
        }
        false
    }

    /// The same number in four words, where it fits.
    fn narrow(self) -> (r: Option<Amount>)
        ensures
            self@ < amount_limit() ==> r.is_some() && r.unwrap()@ == self@,
            self@ >= amount_limit() ==> r.is_none(),
    {
        if self.limbs[4] == 0 && self.limbs[5] == 0 && self.limbs[6] == 0 && self.limbs[7] == 0 {
            Some(Amount { limbs: [self.limbs[0], self.limbs[1], self.limbs[2], self.limbs[3]] })
        } else {
            None
        }
    }
}

impl Amount {
    /// The amount zero.
    pub fn zero() -> (r: Amount)
        ensures
            r@ == 0,
    {
        Amount { limbs: [0, 0, 0, 0] }
    }

    /// The amount `v`.
    pub fn from_u64(v: u64) -> (r: Amount)
        ensures
            r@ == v,
    {
        Amount { limbs: [v, 0, 0, 0] }
    }

    /// The amount `v`.
    pub fn from_u128(v: u128) -> (r: Amount)
        ensures
            r@ == v,
    {
        let lo: u64 = (v & 0xffff_ffff_ffff_ffff) as u64;
        let hi: u64 = (v >> 64) as u64;
        assert(v == (v & 0xffff_ffff_ffff_ffff) + (v >> 64) * 0x1_0000_0000_0000_0000) by (bit_vector);
        assert((v & 0xffff_ffff_ffff_ffff) <= 0xffff_ffff_ffff_ffff) by (bit_vector);
        assert((v >> 64) <= 0xffff_ffff_ffff_ffff) by (bit_vector);
        Amount { limbs: [lo, hi, 0, 0] }
    }

    /// The amount as a `u64`, where it fits.
    pub fn to_u64(&self) -> (r: Option<u64>)
        ensures
            self@ <= u64::MAX ==> r == Some(self@ as u64),
            self@ > u64::MAX ==> r.is_none(),
    {
        if self.limbs[1] == 0 && self.limbs[2] == 0 && self.limbs[3] == 0 {
            Some(self.limbs[0])
        } else {
            None
        }
    }

    /// Whether the amount is zero.
    pub fn is_zero(&self) -> (r: bool)
        ensures
            r == (self@ == 0),
    {
        self.limbs[0] == 0 && self.limbs[1] == 0 && self.limbs[2] == 0 && self.limbs[3] == 0
    }

    /// `self < other`.
    pub fn lt(&self, other: &Amount) -> (r: bool)
        ensures
            r == (self@ < other@),
    {
        if self.limbs[3] != other.limbs[3] {
            self.limbs[3] < other.limbs[3]
        } else if self.limbs[2] != other.limbs[2] {
            self.limbs[2] < other.limbs[2]
        } else if self.limbs[1] != other.limbs[1] {
            self.limbs[1] < other.limbs[1]
        } else {
            self.limbs[0] < other.limbs[0]
        }
    }

    /// `self > other`.
    pub fn gt(&self, other: &Amount) -> (r: bool)
        ensures
            r == (self@ > other@),
    {
        other.lt(self)
    }

    /// `self <= other`.
    pub fn le(&self, other: &Amount) -> (r: bool)
        ensures
            r == (self@ <= other@),
    {
        !other.lt(self)
    }

    /// `self >= other`.
    pub fn ge(&self, other: &Amount) -> (r: bool)
        ensures
            r == (self@ >= other@),
    {
        !self.lt(other)
    }

    /// Whether both stand for the same number.
    pub fn eq(&self, other: &Amount) -> (r: bool)
        ensures
            r == (self@ == other@),
    {
        !self.lt(other) && !other.lt(self)
    }

    /// The smaller of two amounts.
    pub fn min(self, other: Amount) -> (r: Amount)
        ensures
            r@ == if self@ <= other@ { self@ } else { other@ },
    {
        if self.le(&other) { self } else { other }
    }

    /// `self + other`, or `None` when the sum reaches 2^256.
    pub fn checked_add(self, other: Amount) -> (r: Option<Amount>)
        ensures
            self@ + other@ < amount_limit() ==> r.is_some() && r.unwrap()@ == self@ + other@,
            self@ + other@ >= amount_limit() ==> r.is_none(),
    {
        sum_within_limit(self, other)
    }

    /// `self - other`, or `None` when `other` is the larger.
    pub fn checked_sub(self, other: Amount) -> (r: Option<Amount>)
        ensures
            self@ >= other@ ==> r.is_some() && r.unwrap()@ == self@ - other@,
            self@ < other@ ==> r.is_none(),
    {
        difference_above_zero(self, other)
    }

    /// `self - other`, or zero when `other` is the larger.
    pub fn saturating_sub(self, other: Amount) -> (r: Amount)
        ensures
            r@ == if self@ >= other@ { self@ - other@ } else { 0 },
    {
        match difference_above_zero(self, other) {
            Some(d) => d,
            None => Amount::zero(),
        }
    }

    /// `self * other`, or `None` when the product reaches 2^256.
    pub fn checked_mul(self, other: Amount) -> (r: Option<Amount>)
        ensures
            self@ * other@ < amount_limit() ==> r.is_some() && r.unwrap()@ == self@ * other@,
            self@ * other@ >= amount_limit() ==> r.is_none(),
    {
        full_product(self, other).narrow()
    }

    /// Whether `a * b < c * d`, with both products taken in 512 bits.
    pub fn product_lt(a: Amount, b: Amount, c: Amount, d: Amount) -> (r: bool)
        ensures
            r == (a@ * b@ < c@ * d@),
    {
        full_product(a, b).lt(&full_product(c, d))
    }

    /// `self * factor / divisor`, rounded down, with the product taken in 512
    /// bits. `None` when the divisor is zero or the quotient reaches 2^256.
    pub fn mul_div(self, factor: Amount, divisor: Amount) -> (r: Option<Amount>)
        ensures
            match r {
                Some(q) => scaled(self@, factor@, divisor@) == Some(q@),
                None => scaled(self@, factor@, divisor@) is None,
            },
    {
        if divisor.is_zero() {
            return None;
        }
        let product = full_product(self, factor);
        let (quotient, _) = wide_div_mod(product, Wide::from_amount(divisor));
        quotient.narrow()
    }
}

} // verus!
