//! Arbitrary-precision arithmetic on big-endian byte strings.
//!
//! The heavy operations are carried out by `num_bigint::BigUint` behind
//! trusted wrappers whose contracts state the exact numeric result together
//! with its canonical encoding; the small remainder computation needed by the
//! group validator is implemented and verified here directly.

use vstd::prelude::*;

verus! {

use vstd::arithmetic::power::pow;
use vstd::arithmetic::div_mod::lemma_add_mod_noop;
use vstd::arithmetic::div_mod::lemma_mod_division_less_than_divisor;
use vstd::arithmetic::div_mod::lemma_mul_mod_noop_left;
use crate::byteseq::be_val;
use crate::byteseq::min_be;

/// `(base ^ exp) % m` over unbounded naturals.
pub open spec fn pow_mod(base: nat, exp: nat, m: nat) -> nat
    recommends
        m > 0,
{
    (pow(base as int, exp) % (m as int)) as nat
}

/// Relies on `num_bigint::BigUint::modpow`, which returns
/// `(self ^ exponent) % modulus` and panics only on a zero modulus, and on
/// `from_bytes_be` / `to_bytes_be`, which convert between big-endian bytes
/// and the number, `to_bytes_be` yielding the shortest encoding (a single
/// zero byte for zero).
#[verifier::external_body]
pub(crate) fn mod_pow_bytes(base: &Vec<u8>, exp: &Vec<u8>, modulus: &Vec<u8>) -> (r: Vec<u8>)
    requires
        be_val(modulus@) > 0,
    ensures
        r@ == min_be(pow_mod(be_val(base@), be_val(exp@), be_val(modulus@))),
{
    let b = num_bigint::BigUint::from_bytes_be(base.as_slice());
    let e = num_bigint::BigUint::from_bytes_be(exp.as_slice());
    let m = num_bigint::BigUint::from_bytes_be(modulus.as_slice());
    b.modpow(&e, &m).to_bytes_be()
}

/// Relies on `num_bigint::BigUint`'s `Mul` impl (exact product) and on the
/// byte conversions described at `mod_pow_bytes`.
#[verifier::external_body]
pub(crate) fn mul_bytes(a: &Vec<u8>, b: &Vec<u8>) -> (r: Vec<u8>)
    ensures
        r@ == min_be(be_val(a@) * be_val(b@)),
{
    let x = num_bigint::BigUint::from_bytes_be(a.as_slice());
    let y = num_bigint::BigUint::from_bytes_be(b.as_slice());
    (x * y).to_bytes_be()
}

/// Relies on `num_bigint::BigUint`'s `Add` impl (exact sum) and on the byte
/// conversions described at `mod_pow_bytes`.
#[verifier::external_body]
pub(crate) fn add_bytes(a: &Vec<u8>, b: &Vec<u8>) -> (r: Vec<u8>)
    ensures
        r@ == min_be(be_val(a@) + be_val(b@)),
{
    let x = num_bigint::BigUint::from_bytes_be(a.as_slice());
    let y = num_bigint::BigUint::from_bytes_be(b.as_slice());
    (x + y).to_bytes_be()
}

/// Relies on `num_bigint::BigUint`'s `Sub` impl, which returns the exact
/// difference and panics on underflow (excluded by the precondition), and on
/// the byte conversions described at `mod_pow_bytes`.
#[verifier::external_body]
pub(crate) fn sub_bytes(a: &Vec<u8>, b: &Vec<u8>) -> (r: Vec<u8>)
    requires
        be_val(a@) >= be_val(b@),
    ensures
        r@ == min_be((be_val(a@) - be_val(b@)) as nat),
{
    let x = num_bigint::BigUint::from_bytes_be(a.as_slice());
    let y = num_bigint::BigUint::from_bytes_be(b.as_slice());
    (x - y).to_bytes_be()
}

/// Relies on `num_bigint::BigUint`'s `Rem` impl, which returns the exact
/// remainder and panics on a zero divisor (excluded by the precondition),
/// and on the byte conversions described at `mod_pow_bytes`.
#[verifier::external_body]
pub(crate) fn rem_bytes(a: &Vec<u8>, m: &Vec<u8>) -> (r: Vec<u8>)
    requires
        be_val(m@) > 0,
    ensures
        r@ == min_be(be_val(a@) % be_val(m@)),
{
    let x = num_bigint::BigUint::from_bytes_be(a.as_slice());
    let y = num_bigint::BigUint::from_bytes_be(m.as_slice());
    (x % y).to_bytes_be()
}

proof fn lemma_mod_step(acc: int, b: int, m: int)
    requires
        m > 0,
    ensures
        ((acc % m) * 256 + b) % m == (acc * 256 + b) % m,
{
    lemma_mul_mod_noop_left(acc, 256, m);
    lemma_add_mod_noop((acc % m) * 256, b, m);
    lemma_add_mod_noop(acc * 256, b, m);
}

/// The remainder of a big-endian byte string modulo a small divisor,
/// computed by a verified left-to-right fold.
pub fn be_mod_small(p: &Vec<u8>, m: u64) -> (r: u64)
    requires
        1 <= m,
        m <= 0x1_0000_0000,
    ensures
        r as nat == be_val(p@) % m as nat,
        r < m,
{
    let mut acc: u64 = 0;
    let mut i: usize = 0;
    proof {
        assert(p@.take(0) =~= Seq::<u8>::empty());
        assert(be_val(p@.take(0)) == 0);
        assert(0 as nat % m as nat == 0) by {
            vstd::arithmetic::div_mod::lemma_small_mod(0, m as nat);
        }
    }
    while i < p.len()
        invariant
            1 <= m <= 0x1_0000_0000,
            i <= p.len(),
            acc < m,
            acc as nat == be_val(p@.take(i as int)) % m as nat,
        decreases p.len() - i,
    {
        let b = p[i];
        proof {
            let prefix = p@.take(i as int);
            let next = p@.take(i + 1);
            assert(next.drop_last() =~= prefix);
            assert(next.last() == p@[i as int]);
            assert(be_val(next) == be_val(prefix) * 256 + b as nat);
            lemma_mod_step(be_val(prefix) as int, b as int, m as int);
            lemma_mod_division_less_than_divisor((acc * 256 + b as u64) as int, m as int);
        }
        acc = (acc * 256 + b as u64) % m;
        i += 1;
    }
    proof {
        assert(p@.take(p@.len() as int) =~= p@);
    }
    acc
}

} // verus!
