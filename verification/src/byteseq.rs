//! Big-endian byte-string encodings of unbounded natural numbers, and the
//! fixed-width zero padding used throughout the SRP computation.

use vstd::prelude::*;

verus! {

use vstd::arithmetic::power::pow;
use vstd::arithmetic::power::lemma_pow_adds;

/// The value of a big-endian byte string as an unbounded natural number.
pub open spec fn be_val(s: Seq<u8>) -> nat
    decreases s.len(),
{
    if s.len() == 0 {
        0
    } else {
        be_val(s.drop_last()) * 256 + s.last() as nat
    }
}

/// A sequence of `n` zero bytes.
pub open spec fn zeros(n: nat) -> Seq<u8> {
    Seq::new(n, |i: int| 0u8)
}

/// `s` left-padded with zero bytes to a width of 256, for `s.len() <= 256`.
pub open spec fn pad256(s: Seq<u8>) -> Seq<u8> {
    zeros((256 - s.len()) as nat) + s
}

/// The canonical (shortest) big-endian encoding of `n`; zero encodes as a
/// single zero byte.
pub open spec fn min_be(n: nat) -> Seq<u8>
    decreases n,
{
    if n < 256 {
        seq![n as u8]
    } else {
        min_be(n / 256).push((n % 256) as u8)
    }
}

pub proof fn lemma_be_val_single(b: u8)
    ensures
        be_val(seq![b]) == b,
{
    let s = seq![b];
    assert(s.drop_last() =~= Seq::<u8>::empty());
    assert(be_val(s) == be_val(s.drop_last()) * 256 + s.last() as nat);
}

pub proof fn lemma_be_val_bound(s: Seq<u8>)
    ensures
        be_val(s) < pow(256, s.len()),
    decreases s.len(),
{
    if s.len() == 0 {
        assert(pow(256, 0) == 1) by {
            vstd::arithmetic::power::lemma_pow0(256);
        }
    } else {
        lemma_be_val_bound(s.drop_last());
        assert(pow(256, s.len()) == pow(256, (s.len() - 1) as nat) * 256) by {
            lemma_pow_adds(256, (s.len() - 1) as nat, 1);
            vstd::arithmetic::power::lemma_pow1(256);
        }
        assert(be_val(s.drop_last()) * 256 + s.last() < pow(256, (s.len() - 1) as nat) * 256) by {
            vstd::arithmetic::mul::lemma_mul_inequality(
                be_val(s.drop_last()) + 1 as int,
                pow(256, (s.len() - 1) as nat) as int,
                256 as int,
            );
        }
    }
}

pub proof fn lemma_be_val_prepend_zero(s: Seq<u8>)
    ensures
        be_val(seq![0u8] + s) == be_val(s),
    decreases s.len(),
{
    if s.len() == 0 {
        let t = seq![0u8] + s;
        assert(t =~= seq![0u8]);
        assert(t.drop_last() =~= Seq::<u8>::empty());
        assert(be_val(t) == be_val(t.drop_last()) * 256 + t.last() as nat);
    } else {
        assert((seq![0u8] + s).drop_last() =~= seq![0u8] + s.drop_last());
        lemma_be_val_prepend_zero(s.drop_last());
    }
}

pub proof fn lemma_be_val_zeros_prepend(n: nat, s: Seq<u8>)
    ensures
        be_val(zeros(n) + s) == be_val(s),
    decreases n,
{
    if n == 0 {
        assert(zeros(0) + s =~= s);
    } else {
        assert(zeros(n) + s =~= seq![0u8] + (zeros((n - 1) as nat) + s));
        lemma_be_val_zeros_prepend((n - 1) as nat, s);
        lemma_be_val_prepend_zero(zeros((n - 1) as nat) + s);
    }
}

pub proof fn lemma_pad256_val(s: Seq<u8>)
    requires
        s.len() <= 256,
    ensures
        pad256(s).len() == 256,
        be_val(pad256(s)) == be_val(s),
{
    lemma_be_val_zeros_prepend((256 - s.len()) as nat, s);
}

pub proof fn lemma_min_be_val(n: nat)
    ensures
        be_val(min_be(n)) == n,
        min_be(n).len() >= 1,
    decreases n,
{
    if n < 256 {
        let s = seq![n as u8];
        assert(s.last() == n as u8);
        assert(s.drop_last() =~= Seq::<u8>::empty());
        assert(be_val(s) == be_val(s.drop_last()) * 256 + s.last() as nat);
        assert(be_val(s) == n);
    } else {
        lemma_min_be_val(n / 256);
        let s = min_be(n / 256).push((n % 256) as u8);
        assert(s.drop_last() =~= min_be(n / 256));
        assert(s.last() == (n % 256) as u8);
        assert(be_val(s) == be_val(min_be(n / 256)) * 256 + (n % 256));
        vstd::arithmetic::div_mod::lemma_fundamental_div_mod(n as int, 256);
    }
}

pub proof fn lemma_min_be_len(n: nat, k: nat)
    requires
        k >= 1,
        n < pow(256, k),
    ensures
        min_be(n).len() <= k,
    decreases n,
{
    if n < 256 {
    } else {
        assert(k >= 2) by {
            vstd::arithmetic::power::lemma_pow1(256);
            if k == 1 {
            }
        }
        assert(n / 256 < pow(256, (k - 1) as nat)) by {
            lemma_pow_adds(256, (k - 1) as nat, 1);
            vstd::arithmetic::power::lemma_pow1(256);
            vstd::arithmetic::div_mod::lemma_multiply_divide_lt(
                n as int,
                256,
                pow(256, (k - 1) as nat),
            );
        }
        lemma_min_be_len(n / 256, (k - 1) as nat);
    }
}

/// `be_val` of any 256-byte string is below `pow(256, 256)`, and every natural
/// below that bound has a canonical encoding of at most 256 bytes.
pub proof fn lemma_min_be_fits_256(n: nat)
    requires
        n < pow(256, 256),
    ensures
        min_be(n).len() <= 256,
{
    lemma_min_be_len(n, 256);
}

} // verus!
