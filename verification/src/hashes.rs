//! The hash primitives of the key-derivation chain: SHA-256 and
//! PBKDF2-HMAC-SHA512, called through trusted wrappers, and the salted-hash
//! chain `SH` / `PH1` / `PH2` built on them.

use sha2::Digest;
use vstd::prelude::*;

verus! {

/// The SHA-256 digest of a byte string. The digest is a pure function of its
/// input; its value is not axiomatised here.
pub uninterp spec fn sha256_of(data: Seq<u8>) -> Seq<u8>;

/// The PBKDF2-HMAC-SHA512 derived key for a password, a salt, an iteration
/// count and an output length. A pure function of those four inputs.
pub uninterp spec fn pbkdf2_sha512_of(password: Seq<u8>, salt: Seq<u8>, rounds: nat, out_len: nat) -> Seq<u8>;

/// Relies on `sha2::Sha256` (through `Digest::digest`): a 32-byte digest
/// that depends on the input bytes alone.
#[verifier::external_body]
pub(crate) fn sha256_bytes(data: &Vec<u8>) -> (r: Vec<u8>)
    ensures
        r@ == sha256_of(data@),
        r@.len() == 32,
{
    sha2::Sha256::digest(data.as_slice()).to_vec()
}

/// Relies on `pbkdf2::pbkdf2` with `hmac::Hmac<sha2::Sha512>`: fills the
/// output buffer with the derived key, which depends only on the password,
/// the salt, the iteration count and the requested length. HMAC-SHA512
/// accepts keys of any length, so the call does not panic.
#[verifier::external_body]
pub(crate) fn pbkdf2_hmac_sha512(password: &Vec<u8>, salt: &Vec<u8>, rounds: u32, out_len: usize) -> (r: Vec<u8>)
    ensures
        r@ == pbkdf2_sha512_of(password@, salt@, rounds as nat, out_len as nat),
        r@.len() == out_len,
{
    let mut dk = vec![0u8; out_len];
    pbkdf2::pbkdf2::<hmac::Hmac<sha2::Sha512>>(password.as_slice(), salt.as_slice(), rounds, &mut dk);
    dk
}

/// `SH(data, salt) = H(salt | data | salt)`.
pub open spec fn spec_sh(data: Seq<u8>, salt: Seq<u8>) -> Seq<u8> {
    sha256_of(salt + data + salt)
}

/// `PH1(password, salt1, salt2) = SH(SH(password, salt1), salt2)`.
pub open spec fn spec_ph1(password: Seq<u8>, salt1: Seq<u8>, salt2: Seq<u8>) -> Seq<u8> {
    spec_sh(spec_sh(password, salt1), salt2)
}

/// `PH2(password, salt1, salt2)
///   = SH(PBKDF2-HMAC-SHA512(PH1(password, salt1, salt2), salt1, 100000, 64), salt2)`.
pub open spec fn spec_ph2(password: Seq<u8>, salt1: Seq<u8>, salt2: Seq<u8>) -> Seq<u8> {
    spec_sh(pbkdf2_sha512_of(spec_ph1(password, salt1, salt2), salt1, 100000, 64), salt2)
}

/// Password-hash generation is deterministic once the salts are fixed: any
/// two hashes computed from the same password and the same (already
/// extended) salts are identical. Every result of `ph2` satisfies the
/// hypotheses by its postcondition.
pub proof fn lemma_password_hash_deterministic(
    password: Seq<u8>,
    salt1: Seq<u8>,
    salt2: Seq<u8>,
    first: Seq<u8>,
    second: Seq<u8>,
)
    requires
        first == spec_ph2(password, salt1, salt2),
        second == spec_ph2(password, salt1, salt2),
    ensures
        first == second,
{
}

/// The concatenation of two byte strings.
pub fn concat_bytes(a: &Vec<u8>, b: &Vec<u8>) -> (r: Vec<u8>)
    ensures
        r@ == a@ + b@,
{
    let mut r: Vec<u8> = Vec::new();
    let mut i: usize = 0;
    while i < a.len()
        invariant
            i <= a.len(),
            r@ == a@.take(i as int),
        decreases a.len() - i,
    {
        r.push(a[i]);
        proof {
            assert(a@.take(i + 1) =~= a@.take(i as int).push(a@[i as int]));
        }
        i += 1;
    }
    proof {
        assert(a@.take(a@.len() as int) =~= a@);
    }
    let mut j: usize = 0;
    while j < b.len()
        invariant
            j <= b.len(),
            r@ == a@ + b@.take(j as int),
        decreases b.len() - j,
    {
        r.push(b[j]);
        proof {
            assert(a@ + b@.take(j + 1) =~= (a@ + b@.take(j as int)).push(b@[j as int]));
        }
        j += 1;
    }
    proof {
        assert(a@ + b@.take(b@.len() as int) =~= a@ + b@);
    }
    r
}

/// `SH(data, salt) = H(salt | data | salt)`.
pub fn sh(data: &Vec<u8>, salt: &Vec<u8>) -> (r: Vec<u8>)
    ensures
        r@ == spec_sh(data@, salt@),
        r@.len() == 32,
{
    let msg = concat_bytes(&concat_bytes(salt, data), salt);
    sha256_bytes(&msg)
}

/// `PH1(password, salt1, salt2) = SH(SH(password, salt1), salt2)`.
pub fn ph1(password: &Vec<u8>, salt1: &Vec<u8>, salt2: &Vec<u8>) -> (r: Vec<u8>)
    ensures
        r@ == spec_ph1(password@, salt1@, salt2@),
        r@.len() == 32,
{
    let inner = sh(password, salt1);
    sh(&inner, salt2)
}

/// `PH2(password, salt1, salt2)`: the PBKDF2-strengthened hash whose 32-byte
/// output, read as a big-endian integer, is the SRP password secret `x`.
pub fn ph2(password: &Vec<u8>, salt1: &Vec<u8>, salt2: &Vec<u8>) -> (r: Vec<u8>)
    ensures
        r@ == spec_ph2(password@, salt1@, salt2@),
        r@.len() == 32,
{
    let hash1 = ph1(password, salt1, salt2);
    let dk = pbkdf2_hmac_sha512(&hash1, salt1, 100000, 64);
    sh(&dk, salt2)
}

} // verus!
