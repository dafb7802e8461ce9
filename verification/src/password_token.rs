//! The SRP session orchestrator: holds the server-supplied password
//! information and exposes the two operations an external caller needs —
//! producing a login/verification proof and producing the material for
//! setting or rotating a password.

use vstd::prelude::*;

verus! {

use crate::byteseq::be_val;
use crate::hashes::ph2;
use crate::hashes::spec_ph2;
use crate::two_factor_auth::calculate_2fa;
use crate::two_factor_auth::check_p_and_g;
use crate::two_factor_auth::spec_calculate_2fa;
use crate::two_factor_auth::spec_generator_ok;
use crate::two_factor_auth::TwoFaError;

/// The key-derivation parameters of one password generation:
/// two salts, a small generator and a 256-byte big-endian modulus.
pub struct PasswordKdfAlgo {
    pub salt1: Vec<u8>,
    pub salt2: Vec<u8>,
    pub g: i32,
    pub p: Vec<u8>,
}

/// The server's account-password information, as plain values: whether a
/// password is set, the optional hint, the SRP exchange id, the server's
/// public ephemeral `B`, server-supplied randomness for the client's
/// ephemeral secret, and the current and next key-derivation parameters.
pub struct AccountPassword {
    pub has_password: bool,
    pub hint: Option<String>,
    pub srp_id: Option<i64>,
    pub srp_b: Option<Vec<u8>>,
    pub secure_random: Vec<u8>,
    pub current_algo: Option<PasswordKdfAlgo>,
    pub new_algo: PasswordKdfAlgo,
}

/// The login/verification artifact handed to the RPC layer: the exchange id,
/// the client's public ephemeral value `A` and the proof `M1`.
pub struct InputCheckPasswordSrp {
    pub srp_id: i64,
    pub a: Vec<u8>,
    pub m1: Vec<u8>,
}

/// The proof-or-sentinel value of a password-settings update: an explicit
/// "no current password" sentinel for a first-time set, or an SRP proof.
pub enum InputCheckPassword {
    Empty,
    Srp(InputCheckPasswordSrp),
}

/// The new-password half of a settings update: the (possibly salt-extended)
/// parameters, the verifier hash computed under them (empty when clearing the
/// password), and the pass-through hint and recovery email.
pub struct PasswordInputSettings {
    pub new_algo: Option<PasswordKdfAlgo>,
    pub new_password_hash: Vec<u8>,
    pub hint: String,
    pub email: Option<String>,
}

/// Everything the RPC layer needs to update the account's password settings.
pub struct UpdatePasswordSettings {
    pub password: InputCheckPassword,
    pub new_settings: PasswordInputSettings,
}

/// The deterministic half of the group check: the modulus is 256 bytes,
/// nonzero, and satisfies the generator-specific congruence. Acceptance at
/// run time additionally requires the probabilistic safe-prime test to pass.
pub open spec fn spec_algo_checked(algo: PasswordKdfAlgo) -> bool {
    &&& algo.p@.len() == 256
    &&& be_val(algo.p@) > 0
    &&& spec_generator_ok(algo.g as int, be_val(algo.p@))
}

/// `derived` is `base` with its first salt extended by `extension` and every
/// other field unchanged.
pub open spec fn spec_algo_extends(
    derived: PasswordKdfAlgo,
    base: PasswordKdfAlgo,
    extension: Seq<u8>,
) -> bool {
    &&& derived.salt1@ == base.salt1@ + extension
    &&& derived.salt2@ == base.salt2@
    &&& derived.g == base.g
    &&& derived.p@ == base.p@
}

fn clone_bytes(v: &Vec<u8>) -> (r: Vec<u8>)
    ensures
        r@ == v@,
{
    let mut r: Vec<u8> = Vec::new();
    let mut i: usize = 0;
    while i < v.len()
        invariant
            i <= v.len(),
            r@ =~= v@.take(i as int),
        decreases v.len() - i,
    {
        r.push(v[i]);
        proof {
            assert(v@.take(i as int).push(v@[i as int]) =~= v@.take(i + 1));
        }
        i += 1;
    }
    proof {
        assert(v@.take(v@.len() as int) =~= v@);
    }
    r
}

/// A snapshot of the server's password information, with the two operations
/// a caller needs. Stateless: every operation is a pure computation of the
/// held values and its arguments.
pub struct PasswordToken {
    pub password: AccountPassword,
}

impl PasswordToken {
    pub fn new(password: AccountPassword) -> (r: Self)
        ensures
            r.password == password,
    {
        PasswordToken { password }
    }

    pub fn hint(self) -> (r: String)
        ensures
            self.password.hint matches Some(h) ==> r@ == h@,
            self.password.hint is None ==> r@ == Seq::<char>::empty(),
    {
        match self.password.hint {
            Some(h) => h,
            None => String::new(),
        }
    }

    pub fn has_password(&self) -> (r: bool)
        ensures
            r == self.password.has_password,
    {
        self.password.has_password
    }

    /// Selects the key-derivation parameters for an operation: the upcoming
    /// generation when `is_new` is set (with `fresh_salt` appended to its
    /// first salt, so that no two password generations share a salt), the
    /// current generation otherwise. The group is validated before anything
    /// is derived from it; a group that fails the deterministic checks is
    /// always rejected, and one the safe-prime test rejects is rejected too.
    pub fn algo(&self, is_new: bool, fresh_salt: &Vec<u8>) -> (r: Result<
        PasswordKdfAlgo,
        TwoFaError,
    >)
        requires
            fresh_salt@.len() == 32,
        ensures
            !is_new && self.password.current_algo is None ==> r == Err::<
                PasswordKdfAlgo,
                TwoFaError,
            >(TwoFaError::MissingServerValue),
            r matches Ok(derived) ==> {
                let base = if is_new {
                    self.password.new_algo
                } else {
                    self.password.current_algo->0
                };
                let extension = if is_new {
                    fresh_salt@
                } else {
                    Seq::<u8>::empty()
                };
                &&& spec_algo_extends(derived, base, extension)
                &&& spec_algo_checked(derived)
                &&& (!is_new ==> self.password.current_algo is Some)
            },
            r matches Err(e) ==> (e == TwoFaError::MissingServerValue && !is_new
                && self.password.current_algo is None) || e == TwoFaError::InvalidGroupParameters,
    {
        let chosen: &PasswordKdfAlgo = if is_new {
            &self.password.new_algo
        } else {
            match &self.password.current_algo {
                Some(algo) => algo,
                None => {
                    return Err(TwoFaError::MissingServerValue);
                },
            }
        };
        if !check_p_and_g(&chosen.g, &chosen.p) {
            return Err(TwoFaError::InvalidGroupParameters);
        }
        let mut salt1 = clone_bytes(&chosen.salt1);
        if is_new {
            let mut i: usize = 0;
            let ghost salt1_base = salt1@;
            while i < fresh_salt.len()
                invariant
                    i <= fresh_salt@.len(),
                    salt1@ =~= salt1_base + fresh_salt@.take(i as int),
                decreases fresh_salt@.len() - i,
            {
                salt1.push(fresh_salt[i]);
                proof {
                    assert((salt1_base + fresh_salt@.take(i as int)).push(
                        fresh_salt@[i as int],
                    ) =~= salt1_base + fresh_salt@.take(i + 1));
                }
                i += 1;
            }
            proof {
                assert(salt1_base + fresh_salt@.take(fresh_salt@.len() as int) =~= salt1_base
                    + fresh_salt@);
            }
        } else {
            proof {
                assert(salt1@ + Seq::<u8>::empty() =~= salt1@);
            }
        }
        Ok(
            PasswordKdfAlgo {
                salt1,
                salt2: clone_bytes(&chosen.salt2),
                g: chosen.g,
                p: clone_bytes(&chosen.p),
            },
        )
    }

    /// Builds the login/verification proof for the current password by the
    /// SRP calculation, using the server-supplied randomness as the
    /// ephemeral secret.
    pub fn to_input_check_password_srp(
        &self,
        algo: PasswordKdfAlgo,
        current_password: &Vec<u8>,
    ) -> (r: Result<InputCheckPasswordSrp, TwoFaError>)
        requires
            spec_algo_checked(algo),
            self.password.srp_b matches Some(b) ==> b@.len() <= 256,
            self.password.secure_random@.len() <= 256,
        ensures
            r matches Ok(proof_) ==> {
                &&& self.password.srp_id is Some
                &&& self.password.srp_b is Some
                &&& proof_.srp_id == self.password.srp_id->0
                &&& (proof_.m1@, proof_.a@) == spec_calculate_2fa(
                    algo.salt1@,
                    algo.salt2@,
                    algo.g as int,
                    algo.p@,
                    self.password.srp_b->0@,
                    self.password.secure_random@,
                    current_password@,
                )
            },
            r is Err <==> (self.password.srp_id is None || self.password.srp_b is None),
            r matches Err(e) ==> e == TwoFaError::MissingServerValue,
    {
        let srp_id: i64 = match &self.password.srp_id {
            Some(id) => *id,
            None => {
                return Err(TwoFaError::MissingServerValue);
            },
        };
        let g_b: Vec<u8> = match &self.password.srp_b {
            Some(b) => clone_bytes(b),
            None => {
                return Err(TwoFaError::MissingServerValue);
            },
        };
        let a = clone_bytes(&self.password.secure_random);
        let (m1, g_a) = calculate_2fa(
            &algo.salt1,
            &algo.salt2,
            &algo.g,
            &algo.p,
            g_b,
            a,
            current_password,
        );
        Ok(InputCheckPasswordSrp { srp_id, a: g_a, m1 })
    }

    /// The decision half of editing the two-factor settings: validates the
    /// caller's combination of old and new password, derives the new verifier
    /// material when a new password is set, and builds the proof of the old
    /// password (or the explicit no-password sentinel on a first-time set).
    /// The returned value is everything the RPC layer needs; no network work
    /// happens here.
    pub fn edit_2fa(
        &self,
        old_pwd: Option<Vec<u8>>,
        new_pwd: Option<Vec<u8>>,
        hint: Option<String>,
        email: Option<String>,
        fresh_salt: &Vec<u8>,
    ) -> (r: Result<UpdatePasswordSettings, TwoFaError>)
        requires
            fresh_salt@.len() == 32,
            self.password.srp_b matches Some(b) ==> b@.len() <= 256,
            self.password.secure_random@.len() <= 256,
        ensures
            old_pwd is None && new_pwd is None ==> r == Err::<UpdatePasswordSettings, TwoFaError>(
                TwoFaError::PreconditionViolation,
            ),
            old_pwd is None && self.password.has_password ==> r is Err,
            r matches Ok(plan) ==> {
                &&& (new_pwd matches Some(pw) ==> plan.new_settings.new_algo matches Some(al)
                    && spec_algo_extends(al, self.password.new_algo, fresh_salt@)
                    && spec_algo_checked(al) && plan.new_settings.new_password_hash@ == spec_ph2(
                    pw@,
                    al.salt1@,
                    al.salt2@,
                ))
                &&& (new_pwd is None ==> plan.new_settings.new_algo is None
                    && plan.new_settings.new_password_hash@ == Seq::<u8>::empty())
                &&& (old_pwd is None ==> !self.password.has_password && plan.password is Empty)
                &&& (old_pwd matches Some(op) ==> plan.password matches InputCheckPassword::Srp(proof_) && {
                    &&& self.password.current_algo matches Some(cur)
                    &&& self.password.srp_id is Some
                    &&& self.password.srp_b is Some
                    &&& proof_.srp_id == self.password.srp_id->0
                    &&& (proof_.m1@, proof_.a@) == spec_calculate_2fa(
                        cur.salt1@,
                        cur.salt2@,
                        cur.g as int,
                        cur.p@,
                        self.password.srp_b->0@,
                        self.password.secure_random@,
                        op@,
                    )
                })
                &&& (hint matches Some(h) ==> plan.new_settings.hint@ == h@)
                &&& (hint is None ==> plan.new_settings.hint@ == Seq::<char>::empty())
                &&& plan.new_settings.email == email
            },
            r matches Err(e) ==> {
                &&& (e == TwoFaError::PreconditionViolation ==> old_pwd is None && (
                new_pwd is None || self.password.has_password))
                &&& (e == TwoFaError::MissingServerValue ==> old_pwd is Some && (
                self.password.current_algo is None || self.password.srp_id is None
                    || self.password.srp_b is None))
                &&& (e == TwoFaError::PreconditionViolation || e == TwoFaError::MissingServerValue
                    || e == TwoFaError::InvalidGroupParameters)
            },
    {
        if old_pwd.is_none() && new_pwd.is_none() {
            return Err(TwoFaError::PreconditionViolation);
        }
        let mut new_algo: Option<PasswordKdfAlgo> = None;
        let mut new_password_hash: Vec<u8> = Vec::new();
        if let Some(pw) = &new_pwd {
            let algo = match self.algo(true, fresh_salt) {
                Ok(algo) => algo,
                Err(e) => {
                    return Err(e);
                },
            };
            new_password_hash = self.generate_new_hash(&algo, pw);
            new_algo = Some(algo);
        }
        let password = if !self.password.has_password && old_pwd.is_none() {
            InputCheckPassword::Empty
        } else {
            match &old_pwd {
                None => {
                    return Err(TwoFaError::PreconditionViolation);
                },
                Some(op) => {
                    let current = match self.algo(false, fresh_salt) {
                        Ok(algo) => algo,
                        Err(e) => {
                            return Err(e);
                        },
                    };
                    match self.to_input_check_password_srp(current, op) {
                        Ok(proof_) => InputCheckPassword::Srp(proof_),
                        Err(e) => {
                            return Err(e);
                        },
                    }
                },
            }
        };
        let hint_text = match hint {
            Some(h) => h,
            None => String::new(),
        };
        Ok(
            UpdatePasswordSettings {
                password,
                new_settings: PasswordInputSettings {
                    new_algo,
                    new_password_hash,
                    hint: hint_text,
                    email,
                },
            },
        )
    }

    /// The verifier hash for a new password under already-validated,
    /// already-salt-extended parameters: `PH2(password, salt1, salt2)`.
    pub fn generate_new_hash(&self, new_algo: &PasswordKdfAlgo, new_password: &Vec<u8>) -> (r: Vec<
        u8,
    >)
        ensures
            r@ == spec_ph2(new_password@, new_algo.salt1@, new_algo.salt2@),
    {
        ph2(new_password, &new_algo.salt1, &new_algo.salt2)
    }
}

} // verus!
