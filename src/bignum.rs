//! Arbitrary-precision unsigned integers and exact non-negative fractions.
//!
//! Prices are kept exact: a fraction of two unbounded naturals. The heavy
//! arithmetic is done by `num_bigint`; the digits cross over as plain
//! base-2^32 vectors so that every value stays visible to the proofs.
use vstd::prelude::*;
use vstd::arithmetic::power::pow;
use num_bigint::BigUint;
use core::cmp::Ordering;

verus! {

/// The number held by base-2^32 digits, least significant digit first.
pub open spec fn digits_value(d: Seq<u32>) -> nat
    decreases d.len(),
{
    if d.len() == 0 {
        0
    } else {
        d[0] as nat + 0x1_0000_0000 * digits_value(d.drop_first())
    }
}

/// The number held by bytes in big-endian order.
pub open spec fn be_bytes_value(b: Seq<u8>) -> nat
    decreases b.len(),
{
    if b.len() == 0 {
        0
    } else {
        be_bytes_value(b.drop_last()) * 256 + b.last() as nat
    }
}

/// An unsigned integer of unbounded size.
#[derive(Debug)]
pub struct BigNum {
    /// Base-2^32 digits, least significant first; trailing zeros are allowed.
    pub digits: Vec<u32>,
}

impl View for BigNum {
    type V = nat;

    open spec fn view(&self) -> nat {
        digits_value(self.digits@)
    }
}

impl Clone for BigNum {
    fn clone(&self) -> (r: BigNum)
        ensures
            r.digits@ == self.digits@,
    {
        let digits = self.digits.clone();
        assert(digits@ =~= self.digits@);
        BigNum { digits }
    }
}

/// Relies on `BigUint::from_bytes_be` (big-endian bytes) and
/// `BigUint::to_u32_digits` (least significant digit first).
#[verifier::external_body]
fn biguint_from_be_bytes(bytes: &[u8]) -> (r: Vec<u32>)
    ensures
        digits_value(r@) == be_bytes_value(bytes@),
{
    BigUint::from_bytes_be(bytes).to_u32_digits()
}

/// Relies on `BigUint::new` and `BigUint` multiplication, which is exact.
#[verifier::external_body]
fn biguint_mul(a: &Vec<u32>, b: &Vec<u32>) -> (r: Vec<u32>)
    ensures
        digits_value(r@) == digits_value(a@) * digits_value(b@),
{
    (BigUint::new(a.clone()) * BigUint::new(b.clone())).to_u32_digits()
}

/// Relies on `BigUint` subtraction, which is exact and panics only when the
/// result would be negative.
#[verifier::external_body]
fn biguint_sub(a: &Vec<u32>, b: &Vec<u32>) -> (r: Vec<u32>)
    requires
        digits_value(a@) >= digits_value(b@),
    ensures
        digits_value(r@) == digits_value(a@) - digits_value(b@),
{
    (BigUint::new(a.clone()) - BigUint::new(b.clone())).to_u32_digits()
}

/// Relies on `BigUint::pow`: the base raised to the exponent.
#[verifier::external_body]
fn biguint_pow(a: &Vec<u32>, e: u32) -> (r: Vec<u32>)
    ensures
        digits_value(r@) == pow(digits_value(a@) as int, e as nat),
{
    BigUint::new(a.clone()).pow(e).to_u32_digits()
}

/// Relies on `Ord for BigUint`, which orders by numeric value.
#[verifier::external_body]
fn biguint_cmp(a: &Vec<u32>, b: &Vec<u32>) -> (r: Ordering)
    ensures
        (r == Ordering::Less) == (digits_value(a@) < digits_value(b@)),
        (r == Ordering::Equal) == (digits_value(a@) == digits_value(b@)),
        (r == Ordering::Greater) == (digits_value(a@) > digits_value(b@)),
{
    BigUint::new(a.clone()).cmp(&BigUint::new(b.clone()))
}

impl BigNum {
    /// Zero.
    pub fn zero() -> (r: BigNum)
        ensures
            r@ == 0,
    {
        BigNum { digits: Vec::new() }
    }

    /// The value of a machine integer.
    pub fn from_u64(v: u64) -> (r: BigNum)
        ensures
            r@ == v as nat,
    {
        let lo: u32 = (v % 0x1_0000_0000) as u32;
        let hi: u32 = (v / 0x1_0000_0000) as u32;
        let mut digits: Vec<u32> = Vec::new();
        digits.push(lo);
        digits.push(hi);
        proof {
            let d = digits@;
            assert(d.drop_first().drop_first().len() == 0);
            assert(digits_value(d.drop_first().drop_first()) == 0);
            assert(digits_value(d.drop_first()) == hi as nat);
            assert(digits_value(d) == lo as nat + 0x1_0000_0000 * hi as nat);
        }
        BigNum { digits }
    }

    /// The value of bytes read in big-endian order, of any length.
    pub fn from_be_bytes(bytes: &[u8]) -> (r: BigNum)
        ensures
            r@ == be_bytes_value(bytes@),
    {
        BigNum { digits: biguint_from_be_bytes(bytes) }
    }

    pub fn mul(&self, o: &BigNum) -> (r: BigNum)
        ensures
            r@ == self@ * o@,
    {
        BigNum { digits: biguint_mul(&self.digits, &o.digits) }
    }

    pub fn sub(&self, o: &BigNum) -> (r: BigNum)
        requires
            self@ >= o@,
        ensures
            r@ == self@ - o@,
    {
        BigNum { digits: biguint_sub(&self.digits, &o.digits) }
    }

    pub fn pow(&self, e: u32) -> (r: BigNum)
        ensures
            r@ == pow(self@ as int, e as nat),
    {
        BigNum { digits: biguint_pow(&self.digits, e) }
    }

    pub fn cmp(&self, o: &BigNum) -> (r: Ordering)
        ensures
            (r == Ordering::Less) == (self@ < o@),
            (r == Ordering::Equal) == (self@ == o@),
            (r == Ordering::Greater) == (self@ > o@),
    {
        biguint_cmp(&self.digits, &o.digits)
    }

    pub fn is_zero(&self) -> (r: bool)
        ensures
            r == (self@ == 0),
    {
        let z = BigNum::zero();
        match self.cmp(&z) {
            Ordering::Equal => true,
            _ => false,
        }
    }
}

/// `a < b` for fractions given as (numerator, denominator) with positive
/// denominators.
pub open spec fn ratio_lt(a: (nat, nat), b: (nat, nat)) -> bool {
    a.0 * b.1 < b.0 * a.1
}

/// `a == b` as numbers, for fractions with positive denominators.
pub open spec fn ratio_eq(a: (nat, nat), b: (nat, nat)) -> bool {
    a.0 * b.1 == b.0 * a.1
}

/// Comparison of fractions is transitive across a non-strict step.
pub proof fn lemma_ratio_lt_le(a: (nat, nat), b: (nat, nat), c: (nat, nat))
    requires
        a.1 > 0,
        b.1 > 0,
        c.1 > 0,
        ratio_lt(a, b),
        !ratio_lt(c, b),
    ensures
        ratio_lt(a, c),
{
    assert(a.0 * b.1 * c.1 < b.0 * a.1 * c.1) by (nonlinear_arith)
        requires
            a.0 * b.1 < b.0 * a.1,
            c.1 > 0,
    ;
    assert(b.0 * c.1 * a.1 <= c.0 * b.1 * a.1) by (nonlinear_arith)
        requires
            b.0 * c.1 <= c.0 * b.1,
    ;
    assert(a.0 * c.1 * b.1 < c.0 * a.1 * b.1) by (nonlinear_arith)
        requires
            a.0 * b.1 * c.1 < b.0 * a.1 * c.1,
            b.0 * c.1 * a.1 <= c.0 * b.1 * a.1,
    ;
    assert(a.0 * c.1 < c.0 * a.1) by (nonlinear_arith)
        requires
            a.0 * c.1 * b.1 < c.0 * a.1 * b.1,
            b.1 > 0,
    ;
}

/// Comparison of fractions is transitive across a non-strict step on the left.
pub proof fn lemma_ratio_le_lt(a: (nat, nat), b: (nat, nat), c: (nat, nat))
    requires
        a.1 > 0,
        b.1 > 0,
        c.1 > 0,
        !ratio_lt(b, a),
        ratio_lt(b, c),
    ensures
        ratio_lt(a, c),
{
    assert(a.0 * b.1 * c.1 <= b.0 * a.1 * c.1) by (nonlinear_arith)
        requires
            a.0 * b.1 <= b.0 * a.1,
    ;
    assert(b.0 * c.1 * a.1 < c.0 * b.1 * a.1) by (nonlinear_arith)
        requires
            b.0 * c.1 < c.0 * b.1,
            a.1 > 0,
    ;
    assert(a.0 * c.1 * b.1 < c.0 * a.1 * b.1) by (nonlinear_arith)
        requires
            a.0 * b.1 * c.1 <= b.0 * a.1 * c.1,
            b.0 * c.1 * a.1 < c.0 * b.1 * a.1,
    ;
    assert(a.0 * c.1 < c.0 * a.1) by (nonlinear_arith)
        requires
            a.0 * c.1 * b.1 < c.0 * a.1 * b.1,
            b.1 > 0,
    ;
}

/// An exact non-negative fraction `num / den`.
#[derive(Debug)]
pub struct Ratio {
    pub num: BigNum,
    pub den: BigNum,
}

impl View for Ratio {
    type V = (nat, nat);

    open spec fn view(&self) -> (nat, nat) {
        (self.num@, self.den@)
    }
}

impl Clone for Ratio {
    fn clone(&self) -> (r: Ratio)
        ensures
            r@ == self@,
    {
        Ratio { num: self.num.clone(), den: self.den.clone() }
    }
}

impl Ratio {
    /// A fraction denotes a number only with a positive denominator.
    pub open spec fn wf(&self) -> bool {
        self.den@ > 0
    }

    pub open spec fn is_positive(&self) -> bool {
        self.num@ > 0
    }

    /// The fraction `num / den` for machine integers, as given (not reduced).
    pub fn from_u64s(num: u64, den: u64) -> (r: Ratio)
        ensures
            r@ == (num as nat, den as nat),
    {
        Ratio { num: BigNum::from_u64(num), den: BigNum::from_u64(den) }
    }

    pub fn positive(&self) -> (r: bool)
        ensures
            r == self.is_positive(),
    {
        !self.num.is_zero()
    }

    /// `self < o` as numbers.
    pub fn lt(&self, o: &Ratio) -> (r: bool)
        ensures
            r == ratio_lt(self@, o@),
    {
        let a = self.num.mul(&o.den);
        let b = o.num.mul(&self.den);
        match a.cmp(&b) {
            Ordering::Less => true,
            _ => false,
        }
    }

    /// `self / o`, built as `(self.num * o.den) / (self.den * o.num)`.
    pub fn div(&self, o: &Ratio) -> (r: Ratio)
        ensures
            r@ == (self.num@ * o.den@, self.den@ * o.num@),
    {
        Ratio { num: self.num.mul(&o.den), den: self.den.mul(&o.num) }
    }

    /// `1 / self`, built by exchanging numerator and denominator.
    pub fn recip(self) -> (r: Ratio)
        ensures
            r@ == (self.den@, self.num@),
    {
        Ratio { num: self.den, den: self.num }
    }
}

} // verus!
