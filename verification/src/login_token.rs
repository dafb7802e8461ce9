//! Small value objects carried through the login flows: the phone-code token
//! of an ordinary login and the QR-login token.

use vstd::prelude::*;

verus! {

/// The phone number and the server's phone-code hash of a pending login.
#[derive(Debug, Clone)]
pub struct LoginToken {
    pub phone: String,
    pub phone_code_hash: String,
}

impl LoginToken {
    pub fn build(phone: String, phone_code_hash: String) -> (r: Self)
        ensures
            r.phone@ == phone@,
            r.phone_code_hash@ == phone_code_hash@,
    {
        Self { phone, phone_code_hash }
    }

    pub fn phone(&self) -> (r: &str)
        ensures
            r@ == self.phone@,
    {
        self.phone.as_str()
    }

    pub fn phone_code_hash(&self) -> (r: &str)
        ensures
            r@ == self.phone_code_hash@,
    {
        self.phone_code_hash.as_str()
    }
}

/// A QR-login token: the opaque token bytes, their expiry time and the
/// sessions excluded from the login.
pub struct QrToken {
    pub token: Vec<u8>,
    pub expires: i32,
    pub except_ids: Vec<i64>,
}

impl QrToken {
    pub fn token(&self) -> (r: &[u8])
        ensures
            r@ == self.token@,
    {
        self.token.as_slice()
    }
}

} // verus!
