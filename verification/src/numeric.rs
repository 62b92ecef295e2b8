//! Fixed-width integers and fixed-point decimals as the contracts use them.
//!
//! `Uint128` is held as `u128`. Wider integers are held as big-endian byte
//! arrays and every operation on them is carried out by `cosmwasm_std`.
use cosmwasm_std::{Uint128, Uint256, Uint512, Decimal256};
use vstd::prelude::*;

verus! {

/// The value of a big-endian byte string.
pub open spec fn be_value(s: Seq<u8>) -> nat
    decreases s.len(),
{
    if s.len() == 0 {
        0
    } else {
        be_value(s.drop_last()) * 256 + s.last() as nat
    }
}

/// `256` raised to the power `n`.
pub open spec fn pow256(n: nat) -> nat
    decreases n,
{
    if n == 0 {
        1
    } else {
        256 * pow256((n - 1) as nat)
    }
}

/// `2^256`: one more than the largest `Uint256`.
pub open spec fn u256_modulus() -> nat {
    0x1_0000_0000_0000_0000_0000_0000_0000_0000_0000_0000_0000_0000_0000_0000_0000_0000nat
}

/// The number of atomic units in one whole decimal.
pub open spec fn decimal_fractional() -> int {
    1_000_000_000_000_000_000int
}

pub const DECIMAL_FRACTIONAL: u128 = 1_000_000_000_000_000_000u128;

pub proof fn lemma_be_value_bound(s: Seq<u8>)
    ensures
        be_value(s) < pow256(s.len()),
    decreases s.len(),
{
    if s.len() > 0 {
        lemma_be_value_bound(s.drop_last());
    }
}

/// A fraction `p / d` of a nonnegative amount `q`, floored, lies between zero and `q`.
pub proof fn lemma_scaled_fraction_bounds(p: int, q: int, d: int)
    requires
        0 <= p <= d,
        0 < d,
        0 <= q,
    ensures
        0 <= (p * q) / d <= q,
{
    vstd::arithmetic::mul::lemma_mul_inequality(p, d, q);
    assert(0 <= p * q) by (nonlinear_arith)
        requires
            0 <= p,
            0 <= q,
    ;
    vstd::arithmetic::div_mod::lemma_div_is_ordered(p * q, d * q, d);
    vstd::arithmetic::div_mod::lemma_div_multiples_vanish(q, d);
    vstd::arithmetic::div_mod::lemma_div_pos_is_pos(p * q, d);
}

/// A larger fraction of the same amount is no smaller, after flooring.
pub proof fn lemma_scaled_fraction_monotone(p1: int, p2: int, q: int, d: int)
    requires
        0 <= p1 <= p2,
        0 < d,
        0 <= q,
    ensures
        (p1 * q) / d <= (p2 * q) / d,
{
    vstd::arithmetic::mul::lemma_mul_inequality(p1, p2, q);
    vstd::arithmetic::div_mod::lemma_div_is_ordered(p1 * q, p2 * q, d);
}

/// The whole of an amount, as a fraction `d / d`, is the amount itself.
pub proof fn lemma_whole_fraction(q: int, d: int)
    requires
        0 < d,
    ensures
        (d * q) / d == q,
{
    vstd::arithmetic::div_mod::lemma_div_multiples_vanish(q, d);
}

/// The arithmetic failures that the contracts report.
#[derive(Clone, Copy, Debug, PartialEq, Eq, Structural)]
pub enum MathError {
    Overflow,
    DivideByZero,
}

/// A 256-bit unsigned integer in big-endian bytes.
#[derive(Clone, Copy, Debug)]
pub struct U256 {
    pub be: [u8; 32],
}

/// A 512-bit unsigned integer in big-endian bytes.
#[derive(Clone, Copy, Debug)]
pub struct U512 {
    pub be: [u8; 64],
}

impl U256 {
    pub open spec fn value(self) -> nat {
        be_value(self.be@)
    }

    pub proof fn lemma_value_bound(self)
        ensures
            self.value() < u256_modulus(),
    {
        lemma_be_value_bound(self.be@);
        reveal_with_fuel(pow256, 33);
        assert(pow256(32) == u256_modulus());
    }

    /// The integer `x` as a 256-bit value.
    pub fn from_u128(x: u128) -> (r: U256)
        ensures
            r.value() == x,
    {
        u256_from_u128(x)
    }

    /// The value as a `u128`, when it fits.
    pub fn to_u128(&self) -> (r: Option<u128>)
        ensures
            r is Some <==> self.value() <= u128::MAX,
            r matches Some(v) ==> v == self.value(),
    {
        u256_try_into_u128(*self)
    }

    pub fn zero() -> (r: U256)
        ensures
            r.value() == 0,
    {
        u256_from_u128(0)
    }
}

impl U512 {
    pub open spec fn value(self) -> nat {
        be_value(self.be@)
    }
}

/// `Uint256::from(u128)`: the same integer in 256 bits.
#[verifier::external_body]
pub(crate) fn u256_from_u128(x: u128) -> (r: U256)
    ensures
        r.value() == x,
{
    U256 { be: Uint256::from(x).to_be_bytes() }
}

/// `Uint256::checked_add`: the sum, or an error when it does not fit in 256 bits.
#[verifier::external_body]
pub(crate) fn u256_checked_add(a: U256, b: U256) -> (r: Option<U256>)
    ensures
        r is Some <==> a.value() + b.value() < u256_modulus(),
        r matches Some(c) ==> c.value() == a.value() + b.value(),
{
    match Uint256::from_be_bytes(a.be).checked_add(Uint256::from_be_bytes(b.be)) {
        Ok(c) => Some(U256 { be: c.to_be_bytes() }),
        Err(_) => None,
    }
}

/// `Uint256::checked_sub`: the difference, or an error when `b` exceeds `a`.
#[verifier::external_body]
pub(crate) fn u256_checked_sub(a: U256, b: U256) -> (r: Option<U256>)
    ensures
        r is Some <==> b.value() <= a.value(),
        r matches Some(c) ==> c.value() == a.value() - b.value(),
{
    match Uint256::from_be_bytes(a.be).checked_sub(Uint256::from_be_bytes(b.be)) {
        Ok(c) => Some(U256 { be: c.to_be_bytes() }),
        Err(_) => None,
    }
}

/// `Uint256::checked_mul`: the product, or an error when it does not fit in 256 bits.
#[verifier::external_body]
pub(crate) fn u256_checked_mul(a: U256, b: U256) -> (r: Option<U256>)
    ensures
        r is Some <==> a.value() * b.value() < u256_modulus(),
        r matches Some(c) ==> c.value() == a.value() * b.value(),
{
    match Uint256::from_be_bytes(a.be).checked_mul(Uint256::from_be_bytes(b.be)) {
        Ok(c) => Some(U256 { be: c.to_be_bytes() }),
        Err(_) => None,
    }
}

/// `Uint256::checked_div`: the floored quotient, or an error for a zero divisor.
#[verifier::external_body]
pub(crate) fn u256_checked_div(a: U256, b: U256) -> (r: Option<U256>)
    ensures
        r is Some <==> b.value() != 0,
        r matches Some(c) ==> c.value() == a.value() / b.value(),
{
    match Uint256::from_be_bytes(a.be).checked_div(Uint256::from_be_bytes(b.be)) {
        Ok(c) => Some(U256 { be: c.to_be_bytes() }),
        Err(_) => None,
    }
}

/// `Uint128::try_from(Uint256)`: the value when it fits in 128 bits.
#[verifier::external_body]
pub(crate) fn u256_try_into_u128(a: U256) -> (r: Option<u128>)
    ensures
        r is Some <==> a.value() <= u128::MAX,
        r matches Some(v) ==> v == a.value(),
{
    match Uint128::try_from(Uint256::from_be_bytes(a.be)) {
        Ok(v) => Some(v.u128()),
        Err(_) => None,
    }
}

/// `Uint256::is_zero`.
#[verifier::external_body]
pub(crate) fn u256_is_zero(a: U256) -> (r: bool)
    ensures
        r == (a.value() == 0),
{
    Uint256::from_be_bytes(a.be).is_zero()
}

/// `Uint128::full_mul`: the exact product of two 128-bit values in 256 bits.
#[verifier::external_body]
pub(crate) fn u128_full_mul(a: u128, b: u128) -> (r: U256)
    ensures
        r.value() == a * b,
{
    U256 { be: Uint128::new(a).full_mul(b).to_be_bytes() }
}

/// `Uint256::full_mul`: the exact product of two 256-bit values in 512 bits.
#[verifier::external_body]
pub(crate) fn u256_full_mul(a: U256, b: U256) -> (r: U512)
    ensures
        r.value() == a.value() * b.value(),
{
    U512 { be: Uint256::from_be_bytes(a.be).full_mul(Uint256::from_be_bytes(b.be)).to_be_bytes() }
}

/// `Uint512::from(Uint256)`: the same integer in 512 bits.
#[verifier::external_body]
pub(crate) fn u512_from_u256(a: U256) -> (r: U512)
    ensures
        r.value() == a.value(),
{
    U512 { be: Uint512::from(Uint256::from_be_bytes(a.be)).to_be_bytes() }
}

/// `Uint512 / Uint512`: the floored quotient; it panics on a zero divisor.
#[verifier::external_body]
pub(crate) fn u512_div(a: U512, b: U512) -> (r: U512)
    requires
        b.value() != 0,
    ensures
        r.value() == a.value() / b.value(),
{
    U512 { be: (Uint512::from_be_bytes(a.be) / Uint512::from_be_bytes(b.be)).to_be_bytes() }
}

/// `Uint128::try_from(Uint512)`: the value when it fits in 128 bits.
#[verifier::external_body]
pub(crate) fn u512_try_into_u128(a: U512) -> (r: Option<u128>)
    ensures
        r is Some <==> a.value() <= u128::MAX,
        r matches Some(v) ==> v == a.value(),
{
    match Uint128::try_from(Uint512::from_be_bytes(a.be)) {
        Ok(v) => Some(v.u128()),
        Err(_) => None,
    }
}

/// `Uint128::checked_multiply_ratio`: `a * n / d` floored, or an error when
/// `d` is zero or the quotient does not fit in 128 bits.
#[verifier::external_body]
pub(crate) fn u128_checked_multiply_ratio(a: u128, n: u128, d: u128) -> (r: Option<u128>)
    ensures
        r is Some <==> (d != 0 && (a * n) / (d as int) <= u128::MAX),
        r matches Some(v) ==> d != 0 && v == (a * n) / (d as int),
{
    match Uint128::new(a).checked_multiply_ratio(n, d) {
        Ok(v) => Some(v.u128()),
        Err(_) => None,
    }
}

/// `Decimal256::checked_from_ratio`: `n / d` in atomic units (`n * 10^18 / d`
/// floored), or an error when `d` is zero or the result does not fit in 256 bits.
#[verifier::external_body]
pub(crate) fn dec256_checked_from_ratio(n: U256, d: U256) -> (r: Option<Dec256>)
    ensures
        r is Some <==> (d.value() != 0 && (n.value() * decimal_fractional()) / (d.value() as int)
            < u256_modulus()),
        r matches Some(q) ==> d.value() != 0 && q.atomics.value() == (n.value()
            * decimal_fractional()) / (d.value() as int),
{
    match Decimal256::checked_from_ratio(Uint256::from_be_bytes(n.be), Uint256::from_be_bytes(d.be)) {
        Ok(q) => Some(Dec256 { atomics: U256 { be: q.atomics().to_be_bytes() } }),
        Err(_) => None,
    }
}

/// A fixed-point decimal with 18 fractional digits over a `u128` of atomic units.
#[derive(Clone, Copy, Debug, PartialEq, Eq, Structural)]
pub struct Dec {
    pub atomics: u128,
}

/// A fixed-point decimal with 18 fractional digits over a 256-bit integer.
#[derive(Clone, Copy, Debug)]
pub struct Dec256 {
    pub atomics: U256,
}


/// `a * d` for an integer `a` and a decimal `d` (`Uint128 * Decimal`), floored;
/// `None` where the product does not fit in 128 bits.
pub fn u128_mul_dec(a: u128, d: Dec) -> (r: Option<u128>)
    ensures
        r is Some <==> (a * d.atomics) / decimal_fractional() <= u128::MAX,
        r matches Some(v) ==> v == (a * d.atomics) / decimal_fractional(),
{
    u128_checked_multiply_ratio(a, d.atomics, DECIMAL_FRACTIONAL)
}

/// The integer `x` as a decimal (`Decimal::from_ratio(x, 1)`), when it fits.
pub fn u128_to_decimal(x: u128) -> (r: Option<Dec>)
    ensures
        r is Some <==> x * decimal_fractional() <= u128::MAX,
        r matches Some(d) ==> d.atomics == x * decimal_fractional(),
{
    Dec::from_ratio(x, 1)
}

impl Dec {
    pub open spec fn value(self) -> nat {
        self.atomics as nat
    }

    pub fn zero() -> (r: Dec)
        ensures
            r.atomics == 0,
    {
        Dec { atomics: 0 }
    }

    pub fn one() -> (r: Dec)
        ensures
            r.atomics == decimal_fractional(),
    {
        Dec { atomics: DECIMAL_FRACTIONAL }
    }

    pub fn is_zero(&self) -> (r: bool)
        ensures
            r == (self.atomics == 0),
    {
        self.atomics == 0
    }

    /// `numerator / denominator` (`Decimal::checked_from_ratio`).
    pub fn from_ratio(numerator: u128, denominator: u128) -> (r: Option<Dec>)
        ensures
            r is Some <==> (denominator != 0 && (numerator * decimal_fractional()) / (
            denominator as int) <= u128::MAX),
            r matches Some(d) ==> denominator != 0 && d.atomics == (numerator
                * decimal_fractional()) / (denominator as int),
    {
        match u128_checked_multiply_ratio(numerator, DECIMAL_FRACTIONAL, denominator) {
            Some(v) => Some(Dec { atomics: v }),
            None => None,
        }
    }

    /// `Decimal::checked_add`.
    pub fn checked_add(self, other: Dec) -> (r: Option<Dec>)
        ensures
            r is Some <==> self.atomics + other.atomics <= u128::MAX,
            r matches Some(d) ==> d.atomics == self.atomics + other.atomics,
    {
        match self.atomics.checked_add(other.atomics) {
            Some(v) => Some(Dec { atomics: v }),
            None => None,
        }
    }

    /// `Decimal::checked_mul`: the product, floored to 18 fractional digits.
    pub fn checked_mul(self, other: Dec) -> (r: Option<Dec>)
        ensures
            r is Some <==> (self.atomics * other.atomics) / decimal_fractional() <= u128::MAX,
            r matches Some(d) ==> d.atomics == (self.atomics * other.atomics)
                / decimal_fractional(),
    {
        match u128_checked_multiply_ratio(self.atomics, other.atomics, DECIMAL_FRACTIONAL) {
            Some(v) => Some(Dec { atomics: v }),
            None => None,
        }
    }

    /// `Decimal::to_uint_floor`: the integer part.
    pub fn to_uint_floor(self) -> (r: u128)
        ensures
            r == (self.atomics as int) / decimal_fractional(),
    {
        self.atomics / DECIMAL_FRACTIONAL
    }

    /// The smaller of two decimals.
    pub fn min(self, other: Dec) -> (r: Dec)
        ensures
            r.atomics == if self.atomics <= other.atomics { self.atomics } else { other.atomics },
    {
        if self.atomics <= other.atomics {
            self
        } else {
            other
        }
    }

    /// `self * other` for an integer `other`, floored; zero when either is zero,
    /// an overflow error where the result does not fit in 128 bits.
    pub fn checked_mul_uint128(self, other: u128) -> (r: Result<u128, MathError>)
        ensures
            r is Ok <==> (other * self.atomics) / decimal_fractional() <= u128::MAX,
            r matches Ok(v) ==> v == (other * self.atomics) / decimal_fractional(),
    {
        if self.atomics == 0 || other == 0 {
            proof {
                assert(other * self.atomics == 0) by (nonlinear_arith)
                    requires
                        self.atomics == 0 || other == 0,
                ;
            }
            return Ok(0);
        }
        match u128_checked_multiply_ratio(other, self.atomics, DECIMAL_FRACTIONAL) {
            Some(v) => Ok(v),
            None => Err(MathError::Overflow),
        }
    }
}

impl Dec256 {
    pub open spec fn value(self) -> nat {
        self.atomics.value()
    }

    pub fn one() -> (r: Dec256)
        ensures
            r.value() == decimal_fractional(),
    {
        Dec256 { atomics: u256_from_u128(DECIMAL_FRACTIONAL) }
    }

    /// The decimal with the given number of atomic units.
    pub fn from_atomics_u128(atomics: u128) -> (r: Dec256)
        ensures
            r.value() == atomics,
    {
        Dec256 { atomics: u256_from_u128(atomics) }
    }

    /// `Decimal256::checked_add`.
    pub fn checked_add(self, other: Dec256) -> (r: Option<Dec256>)
        ensures
            r is Some <==> self.value() + other.value() < u256_modulus(),
            r matches Some(d) ==> d.value() == self.value() + other.value(),
    {
        match u256_checked_add(self.atomics, other.atomics) {
            Some(v) => Some(Dec256 { atomics: v }),
            None => None,
        }
    }

    /// `numerator / denominator` (`Decimal256::checked_from_ratio`).
    pub fn from_ratio(numerator: U256, denominator: U256) -> (r: Option<Dec256>)
        ensures
            r is Some <==> (denominator.value() != 0 && (numerator.value() * decimal_fractional())
                / (denominator.value() as int) < u256_modulus()),
            r matches Some(d) ==> denominator.value() != 0 && d.value() == (numerator.value()
                * decimal_fractional()) / (denominator.value() as int),
    {
        dec256_checked_from_ratio(numerator, denominator)
    }

    /// `self * other` for a 256-bit integer `other`, floored and computed in
    /// 512 bits; an overflow error where the result does not fit in 128 bits.
    pub fn checked_mul_uint256(self, other: U256) -> (r: Result<u128, MathError>)
        ensures
            r is Ok <==> ((other.value() * self.value()) as int) / decimal_fractional() <= u128::MAX,
            r matches Ok(v) ==> v == ((other.value() * self.value()) as int) / decimal_fractional(),
    {
        if u256_is_zero(self.atomics) || u256_is_zero(other) {
            proof {
                let a = other.value();
                let b = self.value();
                assert(a * b == 0) by (nonlinear_arith)
                    requires
                        a == 0 || b == 0,
                ;
            }
            return Ok(0);
        }
        let product = u256_full_mul(other, self.atomics);
        let fractional = u512_from_u256(u256_from_u128(DECIMAL_FRACTIONAL));
        let ratio = u512_div(product, fractional);
        match u512_try_into_u128(ratio) {
            Some(v) => Ok(v),
            None => Err(MathError::Overflow),
        }
    }
}

} // verus!
