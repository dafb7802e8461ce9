//! The SRP two-factor-authentication core: fixed-width padding, the XOR
//! helper, validation of server-supplied safe-prime groups, and the
//! `calculate_2fa` proof calculation.

use vstd::prelude::*;

verus! {

use vstd::arithmetic::power::pow;
use crate::byteseq::be_val;
use crate::byteseq::lemma_be_val_bound;
use crate::byteseq::lemma_min_be_fits_256;
use crate::byteseq::lemma_min_be_val;
use crate::byteseq::lemma_pad256_val;
use crate::byteseq::min_be;
use crate::byteseq::pad256;
use crate::byteseq::zeros;
use crate::bigint::add_bytes;
use crate::bigint::be_mod_small;
use crate::bigint::mod_pow_bytes;
use crate::bigint::mul_bytes;
use crate::bigint::pow_mod;
use crate::bigint::rem_bytes;
use crate::bigint::sub_bytes;
use crate::hashes::concat_bytes;
use crate::hashes::ph2;
use crate::hashes::sha256_bytes;
use crate::hashes::sha256_of;
use crate::hashes::spec_ph2;

/// The errors a caller can see: the taxonomy is deliberately small, and every
/// check runs before any expensive computation.
#[derive(Clone, Copy, Debug, PartialEq, Eq, Structural)]
pub enum TwoFaError {
    /// The modulus is not 256 bytes long, is not accepted as a safe prime, or
    /// fails the generator-specific congruence; also reported for an
    /// unsupported generator value.
    InvalidGroupParameters,
    /// An operation needs a field the server did not supply.
    MissingServerValue,
    /// The caller asked for a password change without proving knowledge of
    /// the current password.
    PreconditionViolation,
}

/// Left-pads a big-endian byte string with zero bytes to exactly 256 bytes.
/// Inputs longer than 256 bytes are a precondition violation: truncating
/// silently would corrupt every value derived from the result.
pub fn pad_to_256(data: &Vec<u8>) -> (r: Vec<u8>)
    requires
        data@.len() <= 256,
    ensures
        r@ == pad256(data@),
        r@.len() == 256,
{
    let pad_len: usize = 256 - data.len();
    let mut r: Vec<u8> = Vec::new();
    let mut i: usize = 0;
    while i < pad_len
        invariant
            i <= pad_len,
            r@ =~= zeros(i as nat),
        decreases pad_len - i,
    {
        r.push(0u8);
        proof {
            assert(zeros(i as nat).push(0u8) =~= zeros((i + 1) as nat));
        }
        i += 1;
    }
    let mut j: usize = 0;
    while j < data.len()
        invariant
            j <= data.len(),
            pad_len == 256 - data@.len(),
            r@ =~= zeros(pad_len as nat) + data@.take(j as int),
        decreases data.len() - j,
    {
        r.push(data[j]);
        proof {
            assert((zeros(pad_len as nat) + data@.take(j as int)).push(data@[j as int]) =~= zeros(
                pad_len as nat,
            ) + data@.take(j + 1));
        }
        j += 1;
    }
    proof {
        assert(zeros(pad_len as nat) + data@.take(data@.len() as int) =~= pad256(data@));
    }
    r
}

/// The byte-wise XOR of two equal-length byte strings.
pub open spec fn xor_bytes(a: Seq<u8>, b: Seq<u8>) -> Seq<u8>
    recommends
        a.len() == b.len(),
{
    Seq::new(a.len(), |i: int| a[i] ^ b[i])
}

/// Byte-wise XOR; both inputs must have the same length.
pub fn xor_equal_length(a: &Vec<u8>, b: &Vec<u8>) -> (r: Vec<u8>)
    requires
        a@.len() == b@.len(),
    ensures
        r@ == xor_bytes(a@, b@),
        r@.len() == a@.len(),
{
    let mut r: Vec<u8> = Vec::new();
    let mut i: usize = 0;
    while i < a.len()
        invariant
            i <= a.len(),
            a@.len() == b@.len(),
            r@ =~= xor_bytes(a@, b@).take(i as int),
        decreases a.len() - i,
    {
        r.push(a[i] ^ b[i]);
        proof {
            assert(xor_bytes(a@, b@).take(i as int).push(a@[i as int] ^ b@[i as int]) =~= xor_bytes(
                a@,
                b@,
            ).take(i + 1));
        }
        i += 1;
    }
    proof {
        assert(xor_bytes(a@, b@).take(a@.len() as int) =~= xor_bytes(a@, b@));
    }
    r
}

/// XOR is commutative.
pub proof fn lemma_xor_commutes(a: Seq<u8>, b: Seq<u8>)
    requires
        a.len() == b.len(),
    ensures
        xor_bytes(a, b) == xor_bytes(b, a),
{
    assert forall|i: int| 0 <= i < a.len() implies xor_bytes(a, b)[i] == xor_bytes(b, a)[i] by {
        let x = a[i];
        let y = b[i];
        assert(x ^ y == y ^ x) by (bit_vector);
    }
    assert(xor_bytes(a, b) =~= xor_bytes(b, a));
}

/// XOR of a byte string with itself is all zero.
pub proof fn lemma_xor_self_is_zero(a: Seq<u8>)
    ensures
        xor_bytes(a, a) == zeros(a.len()),
{
    assert forall|i: int| 0 <= i < a.len() implies xor_bytes(a, a)[i] == 0u8 by {
        let x = a[i];
        assert(x ^ x == 0) by (bit_vector);
    }
    assert(xor_bytes(a, a) =~= zeros(a.len()));
}

/// Padding a byte string that is already 256 bytes long returns it unchanged.
pub proof fn lemma_pad256_identity(s: Seq<u8>)
    requires
        s.len() == 256,
    ensures
        pad256(s) == s,
{
    assert(pad256(s) =~= s);
}

/// The padded string is the input preceded by zero bytes: its suffix is the
/// input and its prefix is all zero.
pub proof fn lemma_pad256_shape(s: Seq<u8>)
    requires
        s.len() <= 256,
    ensures
        pad256(s).len() == 256,
        pad256(s).subrange(256 - s.len(), 256) == s,
        forall|i: int| 0 <= i < 256 - s.len() ==> pad256(s)[i] == 0u8,
{
    assert(pad256(s).subrange(256 - s.len(), 256) =~= s);
}

/// The generator-specific congruence a safe-prime modulus must satisfy;
/// `false` for every unsupported generator value.
pub open spec fn spec_generator_ok(g: int, p: nat) -> bool {
    if g == 2 {
        p % 8 == 7
    } else if g == 3 {
        p % 3 == 2
    } else if g == 4 {
        true
    } else if g == 5 {
        p % 5 == 1 || p % 5 == 4
    } else if g == 6 {
        p % 24 == 19 || p % 24 == 23
    } else if g == 7 {
        p % 7 == 3 || p % 7 == 5 || p % 7 == 6
    } else {
        false
    }
}

/// Relies on `glass_pumpkin::safe_prime::check`: a probabilistic safe-prime
/// test (trial division, a Fermat test and Miller-Rabin rounds with random
/// bases), so no exact value is promised of the outcome. The source rejects
/// any candidate that is not congruent to 2 modulo 3 before drawing any
/// randomness, which is the one fact stated here.
#[verifier::external_body]
fn safe_prime_check(p: &Vec<u8>) -> (r: bool)
    ensures
        r ==> be_val(p@) % 3 == 2,
{
    glass_pumpkin::safe_prime::check(&num_bigint::BigUint::from_bytes_be(p.as_slice()))
}

/// Decides the generator-specific congruence of the group check; the
/// safe-prime test itself is the probabilistic dependency around it.
pub fn check_generator_congruence(g: &i32, p: &Vec<u8>) -> (r: bool)
    ensures
        r == spec_generator_ok(*g as int, be_val(p@)),
{
    if *g == 2 {
        be_mod_small(p, 8) == 7
    } else if *g == 3 {
        be_mod_small(p, 3) == 2
    } else if *g == 4 {
        true
    } else if *g == 5 {
        let m = be_mod_small(p, 5);
        m == 1 || m == 4
    } else if *g == 6 {
        let m = be_mod_small(p, 24);
        m == 19 || m == 23
    } else if *g == 7 {
        let m = be_mod_small(p, 7);
        m == 3 || m == 5 || m == 6
    } else {
        false
    }
}

/// The safe-prime and subgroup check: the modulus must be accepted by the
/// probabilistic safe-prime test and must satisfy the generator-specific
/// congruence. A group that fails the congruence (or names an unsupported
/// generator) is always rejected; acceptance additionally depends on the
/// outcome of the primality test.
pub fn check_p_prime_and_subgroup(p: &Vec<u8>, g: &i32) -> (r: bool)
    ensures
        r ==> spec_generator_ok(*g as int, be_val(p@)),
        r ==> be_val(p@) % 3 == 2,
{
    if !safe_prime_check(p) {
        return false;
    }
    check_generator_congruence(g, p)
}

/// A modulus is usable only at exactly 256 bytes.
pub fn check_p_len(p: &Vec<u8>) -> (r: bool)
    ensures
        r == (p@.len() == 256),
{
    p.len() == 256
}

/// Validation of the parameters required for two-factor authentication:
/// the modulus must be 256 bytes, accepted as a safe prime, and must satisfy
/// the generator-specific congruence.
pub fn check_p_and_g(g: &i32, p: &Vec<u8>) -> (r: bool)
    ensures
        r ==> p@.len() == 256 && spec_generator_ok(*g as int, be_val(p@)),
        r ==> be_val(p@) > 0,
        p@.len() != 256 ==> !r,
{
    if !check_p_len(p) {
        return false;
    }
    check_p_prime_and_subgroup(p, g)
}

/// The full SRP proof computation, step for step:
/// `k = H(p | g)`, `g_a = g^a mod p`, `u = H(g_a | g_b)`,
/// `x = PH2(password, salt1, salt2)`, `v = g^x mod p`,
/// `t = (g_b - k*v) mod p`, `s = t^(a + u*x) mod p`, `k_a = H(s)`, and
/// `m1 = H((H(p) xor H(g)) | H(salt1) | H(salt2) | g_a | g_b | k_a)`,
/// every hashed big-endian value first padded to 256 bytes.
pub open spec fn spec_calculate_2fa(
    salt1: Seq<u8>,
    salt2: Seq<u8>,
    g: int,
    p: Seq<u8>,
    g_b: Seq<u8>,
    a: Seq<u8>,
    password: Seq<u8>,
) -> (Seq<u8>, Seq<u8>)
    recommends
        2 <= g <= 7,
        p.len() == 256,
        be_val(p) > 0,
        g_b.len() <= 256,
        a.len() <= 256,
{
    let pv = be_val(p);
    let g_b_pad = pad256(g_b);
    let g_for_hash = pad256(seq![g as u8]);
    let k = be_val(sha256_of(p + g_for_hash));
    let g_a = pad256(min_be(pow_mod(g as nat, be_val(a), pv)));
    let u = be_val(sha256_of(g_a + g_b_pad));
    let x = be_val(spec_ph2(password, salt1, salt2));
    let v = pow_mod(g as nat, x, pv);
    let k_v = (k * v) % pv;
    let t = (((be_val(g_b_pad) - k_v) % (pv as int))) as nat;
    let s = pow_mod(t, be_val(a) + u * x, pv);
    let k_a = sha256_of(pad256(min_be(s)));
    let m1 = sha256_of(
        xor_bytes(sha256_of(p), sha256_of(g_for_hash)) + sha256_of(salt1) + sha256_of(salt2) + g_a
            + g_b_pad + k_a,
    );
    (m1, g_a)
}

proof fn lemma_pow_nonneg(b: nat, e: nat)
    ensures
        pow(b as int, e) >= 0,
{
    if b > 0 {
        vstd::arithmetic::power::lemma_pow_positive(b as int, e);
    } else if e == 0 {
        vstd::arithmetic::power::lemma_pow0(b as int);
    } else {
        vstd::arithmetic::power::lemma0_pow(e);
    }
}

/// A value reduced modulo a 256-byte modulus has a canonical encoding of at
/// most 256 bytes.
proof fn lemma_reduced_fits(n: nat, p: Seq<u8>)
    requires
        p.len() == 256,
        n < be_val(p),
    ensures
        min_be(n).len() <= 256,
{
    lemma_be_val_bound(p);
    lemma_min_be_fits_256(n);
}

/// Prepare the password for verification against the server. Returns the
/// proof `m1` and the client's public ephemeral value `g_a`, both of which
/// are sent onward (never the raw password).
pub fn calculate_2fa(
    salt1: &Vec<u8>,
    salt2: &Vec<u8>,
    g: &i32,
    p: &Vec<u8>,
    g_b: Vec<u8>,
    a: Vec<u8>,
    password: &Vec<u8>,
) -> (r: (Vec<u8>, Vec<u8>))
    requires
        2 <= *g <= 7,
        p@.len() == 256,
        be_val(p@) > 0,
        g_b@.len() <= 256,
        a@.len() <= 256,
    ensures
        (r.0@, r.1@) == spec_calculate_2fa(salt1@, salt2@, *g as int, p@, g_b@, a@, password@),
        r.0@.len() == 32,
        r.1@.len() == 256,
{
    let ghost pv = be_val(p@);
    broadcast use vstd::arithmetic::div_mod::lemma_mod_division_less_than_divisor;

    // Prepare the padded parameters.
    let g_b_pad = pad_to_256(&g_b);
    let a_pad = pad_to_256(&a);
    proof {
        lemma_pad256_val(g_b@);
        lemma_pad256_val(a@);
    }
    let mut g_byte: Vec<u8> = Vec::new();
    g_byte.push(*g as u8);
    proof {
        assert(g_byte@ =~= seq![*g as u8]);
        crate::byteseq::lemma_be_val_single(*g as u8);
    }
    let g_for_hash = pad_to_256(&g_byte);

    // k := H(p | g)
    let k = sha256_bytes(&concat_bytes(p, &g_for_hash));

    // g_a := pow(g, a) mod p
    let g_a_min = mod_pow_bytes(&g_byte, &a_pad, p);
    proof {
        lemma_pow_nonneg(*g as nat, be_val(a@));
        lemma_reduced_fits(pow_mod(*g as nat, be_val(a@), pv), p@);
        lemma_min_be_val(pow_mod(*g as nat, be_val(a@), pv));
    }
    let g_a = pad_to_256(&g_a_min);

    // u := H(g_a | g_b)
    let u_h = sha256_bytes(&concat_bytes(&g_a, &g_b_pad));
    let ghost u = be_val(u_h@);

    // x := PH2(password, salt1, salt2)
    let x_h = ph2(password, salt1, salt2);
    let ghost x = be_val(x_h@);

    // v := pow(g, x) mod p
    let v_min = mod_pow_bytes(&g_byte, &x_h, p);
    proof {
        lemma_pow_nonneg(*g as nat, x);
        lemma_min_be_val(pow_mod(*g as nat, x, pv));
    }

    // k_v := (k * v) mod p
    let k_v_prod = mul_bytes(&k, &v_min);
    proof {
        lemma_min_be_val(be_val(k@) * pow_mod(*g as nat, x, pv));
    }
    let k_v = rem_bytes(&k_v_prod, p);
    let ghost kv_val = (be_val(k@) * pow_mod(*g as nat, x, pv)) % pv;
    proof {
        lemma_min_be_val(kv_val);
        assert(be_val(k_v@) == kv_val);
        assert(kv_val < pv);
    }

    // t := (g_b - k_v) mod p, as true modular subtraction: since k_v < p,
    // (g_b - k_v) mod p == (g_b + (p - k_v)) mod p.
    let p_minus_kv = sub_bytes(p, &k_v);
    proof {
        lemma_min_be_val((pv - kv_val) as nat);
    }
    let t_sum = add_bytes(&g_b_pad, &p_minus_kv);
    proof {
        lemma_min_be_val(be_val(g_b_pad@) + (pv - kv_val) as nat);
    }
    let t = rem_bytes(&t_sum, p);
    let ghost t_val = ((be_val(g_b_pad@) - kv_val) % (pv as int)) as nat;
    proof {
        vstd::arithmetic::div_mod::lemma_mod_multiples_vanish(
            1,
            be_val(g_b_pad@) - kv_val,
            pv as int,
        );
        assert((be_val(g_b_pad@) + (pv - kv_val) as nat) as int == pv as int * 1 + (be_val(
            g_b_pad@,
        ) - kv_val));
        lemma_min_be_val((be_val(g_b_pad@) + (pv - kv_val) as nat) % pv);
        assert(be_val(t@) == t_val);
    }

    // s := pow(t, a + u * x) mod p
    let u_x = mul_bytes(&u_h, &x_h);
    proof {
        lemma_min_be_val(u * x);
    }
    let exp_sum = add_bytes(&a_pad, &u_x);
    proof {
        lemma_min_be_val(be_val(a@) + u * x);
    }
    let s_min = mod_pow_bytes(&t, &exp_sum, p);
    proof {
        lemma_pow_nonneg(t_val, be_val(a@) + u * x);
        lemma_reduced_fits(pow_mod(t_val, be_val(a@) + u * x, pv), p@);
        lemma_min_be_val(pow_mod(t_val, be_val(a@) + u * x, pv));
    }

    // k_a := H(s)
    let s_pad = pad_to_256(&s_min);
    let k_a = sha256_bytes(&s_pad);

    // M1 := H(H(p) xor H(g) | H(salt1) | H(salt2) | g_a | g_b | k_a)
    let h_p = sha256_bytes(p);
    let h_g = sha256_bytes(&g_for_hash);
    let p_xor_g = xor_equal_length(&h_p, &h_g);
    let h_s1 = sha256_bytes(salt1);
    let h_s2 = sha256_bytes(salt2);
    let msg1 = concat_bytes(&p_xor_g, &h_s1);
    let msg2 = concat_bytes(&msg1, &h_s2);
    let msg3 = concat_bytes(&msg2, &g_a);
    let msg4 = concat_bytes(&msg3, &g_b_pad);
    let msg5 = concat_bytes(&msg4, &k_a);
    let m1 = sha256_bytes(&msg5);

    (m1, g_a)
}

/// The proof calculation is deterministic: any two results computed from
/// identical inputs are identical. Every call of `calculate_2fa` satisfies
/// the hypotheses by its postcondition.
pub proof fn lemma_calculate_2fa_deterministic(
    salt1: Seq<u8>,
    salt2: Seq<u8>,
    g: int,
    p: Seq<u8>,
    g_b: Seq<u8>,
    a: Seq<u8>,
    password: Seq<u8>,
    first: (Seq<u8>, Seq<u8>),
    second: (Seq<u8>, Seq<u8>),
)
    requires
        first == spec_calculate_2fa(salt1, salt2, g, p, g_b, a, password),
        second == spec_calculate_2fa(salt1, salt2, g, p, g_b, a, password),
    ensures
        first == second,
{
}

} // verus!
