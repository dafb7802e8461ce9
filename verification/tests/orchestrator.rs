use grammers_core::hashes::ph2;
use grammers_core::login_token::LoginToken;
use grammers_core::login_token::QrToken;
use grammers_core::password_token::AccountPassword;
use grammers_core::password_token::InputCheckPassword;
use grammers_core::password_token::PasswordKdfAlgo;
use grammers_core::password_token::PasswordToken;
use grammers_core::two_factor_auth::pad_to_256;
use grammers_core::two_factor_auth::TwoFaError;

fn small_algo() -> PasswordKdfAlgo {
    PasswordKdfAlgo {
        salt1: vec![1],
        salt2: vec![2],
        g: 3,
        p: pad_to_256(&vec![47]),
    }
}

fn sample_token() -> PasswordToken {
    PasswordToken::new(AccountPassword {
        has_password: true,
        hint: Some(String::from("color")),
        srp_id: Some(42),
        srp_b: Some(vec![5]),
        secure_random: vec![6],
        current_algo: Some(small_algo()),
        new_algo: small_algo(),
    })
}

const EXPECTED_M1: [u8; 32] = [
    157, 131, 196, 103, 0, 184, 116, 232, 7, 196, 85, 231, 17, 36, 30, 222, 158, 234, 98, 88, 59,
    56, 71, 215, 183, 123, 122, 50, 19, 32, 54, 206,
];

#[test]
fn login_proof_matches_known_answer() {
    let token = sample_token();
    let algo = token.algo(false, &vec![0; 32]).unwrap();
    let proof = token
        .to_input_check_password_srp(algo, &vec![7])
        .unwrap();
    assert_eq!(proof.srp_id, 42);
    assert_eq!(proof.m1, EXPECTED_M1.to_vec());
    assert_eq!(proof.a.len(), 256);
    assert_eq!(proof.a[255], 24);
    assert!(proof.a[..255].iter().all(|&b| b == 0));
}

#[test]
fn algo_reports_missing_current_algorithm() {
    let mut info = sample_token().password;
    info.current_algo = None;
    let token = PasswordToken::new(info);
    assert_eq!(
        token.algo(false, &vec![0; 32]).err(),
        Some(TwoFaError::MissingServerValue)
    );
}

#[test]
fn algo_rejects_bad_group() {
    let mut info = sample_token().password;
    // A modulus that is not 256 bytes long.
    info.current_algo = Some(PasswordKdfAlgo {
        salt1: vec![1],
        salt2: vec![2],
        g: 3,
        p: vec![47],
    });
    let token = PasswordToken::new(info);
    assert_eq!(
        token.algo(false, &vec![0; 32]).err(),
        Some(TwoFaError::InvalidGroupParameters)
    );

    // A generator outside the supported set.
    let mut info = sample_token().password;
    info.new_algo.g = 9;
    let token = PasswordToken::new(info);
    assert_eq!(
        token.algo(true, &vec![0; 32]).err(),
        Some(TwoFaError::InvalidGroupParameters)
    );
}

#[test]
fn algo_extends_salt_only_for_new_generation() {
    let token = sample_token();
    let fresh = vec![0xab; 32];

    let current = token.algo(false, &fresh).unwrap();
    assert_eq!(current.salt1, vec![1]);

    let fresh_algo = token.algo(true, &fresh).unwrap();
    let mut expected_salt1 = vec![1];
    expected_salt1.extend_from_slice(&fresh);
    assert_eq!(fresh_algo.salt1, expected_salt1);
    assert_eq!(fresh_algo.salt2, vec![2]);
    assert_eq!(fresh_algo.g, 3);
}

#[test]
fn edit_2fa_requires_some_password() {
    let token = sample_token();
    let r = token.edit_2fa(None, None, None, None, &vec![0; 32]);
    assert_eq!(r.err(), Some(TwoFaError::PreconditionViolation));
}

#[test]
fn edit_2fa_change_needs_old_password() {
    let token = sample_token();
    let r = token.edit_2fa(None, Some(vec![8]), None, None, &vec![0; 32]);
    assert_eq!(r.err(), Some(TwoFaError::PreconditionViolation));
}

#[test]
fn edit_2fa_change_flow() {
    let token = sample_token();
    let fresh = vec![0xcd; 32];
    let plan = token
        .edit_2fa(
            Some(vec![7]),
            Some(vec![8]),
            Some(String::from("new hint")),
            None,
            &fresh,
        )
        .unwrap();

    match plan.password {
        InputCheckPassword::Srp(proof) => {
            assert_eq!(proof.srp_id, 42);
            assert_eq!(proof.m1, EXPECTED_M1.to_vec());
        }
        InputCheckPassword::Empty => panic!("expected an SRP proof"),
    }

    let new_algo = plan.new_settings.new_algo.expect("a new algorithm");
    let mut expected_salt1 = vec![1];
    expected_salt1.extend_from_slice(&fresh);
    assert_eq!(new_algo.salt1, expected_salt1);
    assert_eq!(
        plan.new_settings.new_password_hash,
        ph2(&vec![8], &expected_salt1, &vec![2])
    );
    assert_eq!(plan.new_settings.hint, "new hint");
    assert_eq!(plan.new_settings.email, None);
}

#[test]
fn edit_2fa_first_time_set_uses_empty_sentinel() {
    let mut info = sample_token().password;
    info.has_password = false;
    info.current_algo = None;
    let token = PasswordToken::new(info);

    let plan = token
        .edit_2fa(None, Some(vec![9]), None, Some(String::from("a@b.c")), &vec![0x11; 32])
        .unwrap();
    assert!(matches!(plan.password, InputCheckPassword::Empty));
    assert!(plan.new_settings.new_algo.is_some());
    assert!(!plan.new_settings.new_password_hash.is_empty());
    assert_eq!(plan.new_settings.hint, "");
    assert_eq!(plan.new_settings.email, Some(String::from("a@b.c")));
}

#[test]
fn token_getters() {
    let token = sample_token();
    assert!(token.has_password());
    assert_eq!(token.hint(), "color");

    let mut info = sample_token().password;
    info.hint = None;
    assert_eq!(PasswordToken::new(info).hint(), "");
}

#[test]
fn login_token_getters() {
    let token = LoginToken::build(String::from("+1555"), String::from("abcd"));
    assert_eq!(token.phone(), "+1555");
    assert_eq!(token.phone_code_hash(), "abcd");
}

#[test]
fn qr_token_bytes() {
    let token = QrToken {
        token: vec![1, 2, 3],
        expires: 60,
        except_ids: vec![7],
    };
    assert_eq!(token.token(), &[1, 2, 3]);
}
