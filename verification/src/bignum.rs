//! Arbitrary-precision unsigned integers for the proof engine.
//!
//! The group elements of the protocol are `num_bigint::BigUint` values, which
//! this crate treats as opaque carriers of a natural number. The spec function
//! `nat_of` names that number; every operation the engine needs is exposed
//! here as a thin wrapper whose contract relates the values of its operands.

use vstd::arithmetic::power::pow;
use vstd::prelude::*;

use num_bigint::BigUint;

verus! {

/// `num_bigint::BigUint`, an arbitrary-precision unsigned integer,
/// declared so that it can appear in signatures and fields.
#[verifier::external_type_specification]
#[verifier::external_body]
pub struct ExBigUint(BigUint);

/// The natural number a `BigUint` stands for. `BigUint` keeps a unique
/// (normalized) representation per value, so equal numbers are equal values.
pub uninterp spec fn nat_of(b: BigUint) -> nat;

/// `b ^ e` reduced modulo `m` (meaningful only for `m > 0`).
pub open spec fn mod_exp(b: nat, e: nat, m: nat) -> nat
    recommends
        m > 0,
{
    (pow(b as int, e) % (m as int)) as nat
}

/// Relies on `num_bigint::BigUint::modpow`: returns `(self ^ exponent) %
/// modulus`, and panics if the modulus is zero, which the precondition rules
/// out.
#[verifier::external_body]
pub(crate) fn modpow(base: &BigUint, exponent: &BigUint, modulus: &BigUint) -> (r: BigUint)
    requires
        nat_of(*modulus) > 0,
    ensures
        nat_of(r) == mod_exp(nat_of(*base), nat_of(*exponent), nat_of(*modulus)),
{
    base.modpow(exponent, modulus)
}

/// Relies on `Mul for &BigUint`: plain multiplication of the two values.
#[verifier::external_body]
pub(crate) fn biguint_mul(a: &BigUint, b: &BigUint) -> (r: BigUint)
    ensures
        nat_of(r) == nat_of(*a) * nat_of(*b),
{
    a * b
}

/// Relies on `Sub for &BigUint`: plain subtraction, which panics on
/// underflow; the precondition rules that out.
#[verifier::external_body]
pub(crate) fn biguint_sub(a: &BigUint, b: &BigUint) -> (r: BigUint)
    requires
        nat_of(*a) >= nat_of(*b),
    ensures
        nat_of(r) == nat_of(*a) - nat_of(*b),
{
    a - b
}

/// Relies on `Ord for BigUint`, which orders by numeric value.
#[verifier::external_body]
pub(crate) fn biguint_ge(a: &BigUint, b: &BigUint) -> (r: bool)
    ensures
        r == (nat_of(*a) >= nat_of(*b)),
{
    a >= b
}

/// Relies on `PartialEq for BigUint`: equality of values, since the
/// representation is normalized.
#[verifier::external_body]
pub(crate) fn biguint_eq(a: &BigUint, b: &BigUint) -> (r: bool)
    ensures
        r == (nat_of(*a) == nat_of(*b)),
{
    a == b
}

/// Relies on `Clone for BigUint`: the copy stands for the same number.
#[verifier::external_body]
pub(crate) fn biguint_clone(a: &BigUint) -> (r: BigUint)
    ensures
        nat_of(r) == nat_of(*a),
{
    a.clone()
}

/// Relies on `From<u64> for BigUint`: the value is the given integer.
#[verifier::external_body]
pub fn biguint_from_u64(v: u64) -> (r: BigUint)
    ensures
        nat_of(r) == v as nat,
{
    BigUint::from(v)
}

/// The natural number written by a big-endian byte string.
pub open spec fn be_val(s: Seq<u8>) -> nat
    decreases s.len(),
{
    if s.len() == 0 {
        0
    } else {
        be_val(s.drop_last()) * 256 + s.last() as nat
    }
}

/// A hexadecimal digit, either case.
pub open spec fn is_hex_digit(c: char) -> bool {
    ('0' <= c && c <= '9') || ('a' <= c && c <= 'f') || ('A' <= c && c <= 'F')
}

/// The value of one hexadecimal digit.
pub open spec fn hex_digit_val(c: char) -> nat
    recommends
        is_hex_digit(c),
{
    if '0' <= c && c <= '9' {
        (c as u32 - '0' as u32) as nat
    } else if 'a' <= c && c <= 'f' {
        (c as u32 - 'a' as u32 + 10) as nat
    } else {
        (c as u32 - 'A' as u32 + 10) as nat
    }
}

/// An even number of hexadecimal digits: what a byte-string encoding accepts.
pub open spec fn is_valid_hex(s: Seq<char>) -> bool {
    s.len() % 2 == 0 && (forall|i: int| 0 <= i < s.len() ==> is_hex_digit(s[i]))
}

/// The bytes a valid hexadecimal string writes, two digits per byte.
pub open spec fn hex_bytes(s: Seq<char>) -> Seq<u8>
    recommends
        is_valid_hex(s),
{
    Seq::new((s.len() / 2) as nat, |i: int| (hex_digit_val(s[2 * i]) * 16 + hex_digit_val(s[2 * i + 1])) as u8)
}

/// The number a hexadecimal string stands for, read fail-closed:
/// a string that is not valid hexadecimal stands for zero.
pub open spec fn const_of_hex(s: Seq<char>) -> nat {
    if is_valid_hex(s) {
        be_val(hex_bytes(s))
    } else {
        0
    }
}

/// Relies on `hex::decode`: succeeds exactly on an even number of digits from
/// `0-9a-fA-F`, and byte `i` of the result combines digits `2i` and `2i + 1`.
#[verifier::external_body]
pub(crate) fn decode_hex(s: &str) -> (r: Option<Vec<u8>>)
    ensures
        r is Some <==> is_valid_hex(s@),
        r matches Some(v) ==> v@ == hex_bytes(s@),
{
    hex::decode(s).ok()
}

/// Relies on `BigUint::from_bytes_be`: reads the bytes as one big-endian
/// unsigned integer.
#[verifier::external_body]
pub(crate) fn biguint_from_bytes_be(bytes: &Vec<u8>) -> (r: BigUint)
    ensures
        nat_of(r) == be_val(bytes@),
{
    BigUint::from_bytes_be(bytes)
}

} // verus!
