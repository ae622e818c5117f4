//! Arbitrary-precision unsigned integers, modeled as big-endian byte strings.
//!
//! The puzzle works on integers of up to ~2048 bits. Executable code keeps
//! them as `Vec<u8>` in big-endian order and hands the actual arithmetic to
//! `num_bigint` through the trusted wrappers at the bottom of this module;
//! specifications speak about the mathematical value via [`be_to_nat`] and
//! about the minimal (leading-zero-free) encoding via [`nat_to_be`].

use vstd::prelude::*;
use vstd::arithmetic::div_mod::lemma_fundamental_div_mod;

verus! {

/// `base` raised to the power `exp`, over the natural numbers.
pub open spec fn pow_nat(base: nat, exp: nat) -> nat
    decreases exp,
{
    if exp == 0 {
        1
    } else {
        base * pow_nat(base, (exp - 1) as nat)
    }
}

/// The unsigned integer denoted by a big-endian byte string.
/// Leading zero bytes do not change the value.
pub open spec fn be_to_nat(s: Seq<u8>) -> nat
    decreases s.len(),
{
    if s.len() == 0 {
        0
    } else {
        (be_to_nat(s.drop_last()) * 256 + s.last()) as nat
    }
}

/// The big-endian digits of `n` with no leading zero byte;
/// empty for `n == 0`.
pub open spec fn nat_digits(n: nat) -> Seq<u8>
    decreases n,
{
    if n == 0 {
        Seq::empty()
    } else {
        nat_digits(n / 256).push((n % 256) as u8)
    }
}

/// The minimal big-endian encoding of `n`: its digits, or the single byte
/// `0` when `n == 0`. This is the form `num_bigint` produces.
pub open spec fn nat_to_be(n: nat) -> Seq<u8> {
    if n == 0 {
        seq![0u8]
    } else {
        nat_digits(n)
    }
}

/// Appending a byte multiplies the value by 256 and adds the byte.
pub proof fn lemma_be_to_nat_push(s: Seq<u8>, b: u8)
    ensures
        be_to_nat(s.push(b)) == be_to_nat(s) * 256 + b,
{
    assert(s.push(b).drop_last() =~= s);
    assert(s.push(b).last() == b);
}

/// The digit string of `n` denotes `n` itself.
pub proof fn lemma_nat_digits_value(n: nat)
    ensures
        be_to_nat(nat_digits(n)) == n,
    decreases n,
{
    if n != 0 {
        lemma_nat_digits_value(n / 256);
        lemma_be_to_nat_push(nat_digits(n / 256), (n % 256) as u8);
        lemma_fundamental_div_mod(n as int, 256);
    }
}

/// Decoding inverts the minimal encoding: `be_to_nat(nat_to_be(n)) == n`.
pub proof fn lemma_nat_to_be_value(n: nat)
    ensures
        be_to_nat(nat_to_be(n)) == n,
{
    if n == 0 {
        assert(seq![0u8].drop_last() =~= Seq::<u8>::empty());
        assert(seq![0u8].last() == 0u8);
        assert(be_to_nat(Seq::<u8>::empty()) == 0);
        assert(be_to_nat(seq![0u8]) == be_to_nat(seq![0u8].drop_last()) * 256 + seq![0u8].last());
    } else {
        lemma_nat_digits_value(n);
    }
}

/// `be_to_nat` of a four-byte string, written out digit by digit.
pub proof fn lemma_be_to_nat_four(s: Seq<u8>)
    requires
        s.len() == 4,
    ensures
        be_to_nat(s) == ((s[0] * 256 + s[1]) * 256 + s[2]) * 256 + s[3],
{
    let s3 = s.drop_last();
    let s2 = s3.drop_last();
    let s1 = s2.drop_last();
    assert(s1.drop_last() =~= Seq::<u8>::empty());
    assert(be_to_nat(s1.drop_last()) == 0);
    assert(s.last() == s[3] && s3.last() == s[2] && s2.last() == s[1] && s1.last() == s[0]);
    assert(be_to_nat(s1) == s[0]);
    assert(be_to_nat(s2) == s[0] * 256 + s[1]);
    assert(be_to_nat(s3) == (s[0] * 256 + s[1]) * 256 + s[2]);
    assert(be_to_nat(s) == ((s[0] * 256 + s[1]) * 256 + s[2]) * 256 + s[3]);
}

/// A byte string of length `k` denotes a value below `256^k`.
pub proof fn lemma_be_to_nat_bound(s: Seq<u8>)
    ensures
        be_to_nat(s) < pow_nat(256, s.len()),
    decreases s.len(),
{
    if s.len() != 0 {
        lemma_be_to_nat_bound(s.drop_last());
        assert(be_to_nat(s.drop_last()) * 256 + 256 <= pow_nat(
            256,
            (s.len() - 1) as nat,
        ) * 256);
        assert(pow_nat(256, s.len()) == 256 * pow_nat(256, (s.len() - 1) as nat));
    }
}

/// A value below `256^k` has at most `k` digits.
pub proof fn lemma_nat_digits_len(n: nat, k: nat)
    requires
        n < pow_nat(256, k),
    ensures
        nat_digits(n).len() <= k,
    decreases k,
{
    if n != 0 {
        assert(k != 0);
        if n / 256 >= pow_nat(256, (k - 1) as nat) {
            lemma_fundamental_div_mod(n as int, 256);
            assert(n >= 256 * (n / 256));
            assert(256 * (n / 256) >= 256 * pow_nat(256, (k - 1) as nat));
            assert(pow_nat(256, k) == 256 * pow_nat(256, (k - 1) as nat));
            assert(false);
        }
        lemma_nat_digits_len(n / 256, (k - 1) as nat);
    }
}

/// A value below `256^k` (for `k >= 1`) has a minimal encoding of at most
/// `k` bytes.
pub proof fn lemma_nat_to_be_len(n: nat, k: nat)
    requires
        1 <= k,
        n < pow_nat(256, k),
    ensures
        nat_to_be(n).len() <= k,
{
    if n != 0 {
        lemma_nat_digits_len(n, k);
    }
}

/// Relies on `num_bigint::BigUint::from_bytes_be` reading big-endian digits
/// and `to_bytes_be` writing the value back in minimal big-endian form
/// (a single `0` byte for zero).
#[verifier::external_body]
pub(crate) fn big_normalize(b: &[u8]) -> (r: Vec<u8>)
    ensures
        r@ == nat_to_be(be_to_nat(b@)),
{
    num_bigint::BigUint::from_bytes_be(b).to_bytes_be()
}

/// Relies on `num_bigint::BigUint` addition: the value grows by exactly one.
#[verifier::external_body]
pub(crate) fn big_succ(b: &[u8]) -> (r: Vec<u8>)
    ensures
        r@ == nat_to_be(be_to_nat(b@) + 1),
{
    (num_bigint::BigUint::from_bytes_be(b) + 1u32).to_bytes_be()
}

/// Relies on `num_bigint::BigUint` right shift: `>> 2` is division by four.
#[verifier::external_body]
pub(crate) fn big_quarter(b: &[u8]) -> (r: Vec<u8>)
    ensures
        r@ == nat_to_be(be_to_nat(b@) / 4),
{
    (num_bigint::BigUint::from_bytes_be(b) >> 2u32).to_bytes_be()
}

/// Relies on `num_bigint::BigUint::modpow`, which computes
/// `base^exp mod modulus` and panics only on a zero modulus, ruled out here
/// by the precondition.
#[verifier::external_body]
pub(crate) fn big_modpow(base: &[u8], exp: &[u8], modulus: &[u8]) -> (r: Vec<u8>)
    requires
        be_to_nat(modulus@) > 0,
    ensures
        r@ == nat_to_be(pow_nat(be_to_nat(base@), be_to_nat(exp@)) % be_to_nat(modulus@)),
{
    let b = num_bigint::BigUint::from_bytes_be(base);
    let e = num_bigint::BigUint::from_bytes_be(exp);
    let m = num_bigint::BigUint::from_bytes_be(modulus);
    b.modpow(&e, &m).to_bytes_be()
}

} // verus!
