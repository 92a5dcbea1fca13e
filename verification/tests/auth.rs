use kanaeru::auth::email_otp::{generate_otp_code, otp_code_of, CreateNewEmailOtp, OtpReason};
use kanaeru::auth::jwt::{AccessToken, RefreshToken};
use kanaeru::auth::password::{Argon2PasswordAlgorithm, PasswordAlgorithm};
use kanaeru::auth::user_profile::CreateNewUserProfile;
use kanaeru::redis::RedisKey;

#[test]
fn otp_code_is_eight_decimal_digits() {
    for _ in 0..16 {
        let code = generate_otp_code();
        assert_eq!(code.len(), 8);
        assert!(code.chars().all(|c| c.is_ascii_digit()));
    }
}

#[test]
fn otp_creation_data_holds_its_fields() {
    let new = CreateNewEmailOtp {
        email: String::from("a@example.com"),
        otp: generate_otp_code(),
        reason: OtpReason::ChangePassword,
    };
    assert_eq!(new.reason, OtpReason::ChangePassword);
    assert_ne!(new.reason, OtpReason::DeleteAccount);
}

#[test]
fn password_hash_verifies_and_rejects() {
    let alg = Argon2PasswordAlgorithm::default();
    let hash = alg.hash_password("hunter42").expect("hashing should succeed");
    assert!(hash.starts_with("$argon2"));
    assert!(alg.verify_password("hunter42", &hash));
    assert!(!alg.verify_password("hunter43", &hash));
    assert!(!alg.verify_password("hunter42", "not a phc hash"));
}

#[test]
fn two_hashes_of_one_password_differ_by_salt_but_both_verify() {
    let alg = Argon2PasswordAlgorithm::default();
    let h1 = alg.hash_password("pw").unwrap();
    let h2 = alg.hash_password("pw").unwrap();
    assert_ne!(h1, h2, "a fresh salt is drawn for each hash");
    assert!(alg.verify_password("pw", &h1));
    assert!(alg.verify_password("pw", &h2));
}

#[test]
fn tokens_wrap_and_unwrap_their_secret() {
    let access = AccessToken::new(String::from("SECRET-REDACTED"));
    assert_eq!(access.into_inner(), "SECRET-REDACTED");
    let refresh = RefreshToken::new(String::from("SECRET-REDACTED"));
    assert_eq!(refresh.into_inner(), "SECRET-REDACTED");
}

#[test]
fn redis_keys_spell_strings_bytes_and_uuids() {
    assert_eq!(RedisKey::from_string("session:abc").0, b"session:abc".to_vec());
    assert_eq!(RedisKey::from_bytes(vec![1, 2, 3]).0, vec![1, 2, 3]);
    let uuid = uuid::Uuid::from_bytes([7u8; 16]);
    assert_eq!(RedisKey::from_uuid(&uuid).0, uuid.as_bytes().to_vec());
    assert_eq!(RedisKey::from_uuid(&uuid).0.len(), 16);
}

#[test]
fn profile_creation_data_holds_its_fields() {
    let new = CreateNewUserProfile {
        name: String::from("Kana"),
        email: String::from("kana@example.com"),
    };
    assert_eq!(new.name, "Kana");
    assert_eq!(new.email, "kana@example.com");
}

#[test]
fn empty_string_key_is_empty_bytes() {
    assert_eq!(RedisKey::from_string("").0, Vec::<u8>::new());
    assert_eq!(RedisKey::from_bytes(Vec::new()).0, Vec::<u8>::new());
}

#[test]
fn otp_spelling_is_the_zero_padded_decimal() {
    assert_eq!(otp_code_of(0), "00000000");
    assert_eq!(otp_code_of(42), "00000042");
    assert_eq!(otp_code_of(99999999), "99999999");
    assert_eq!(otp_code_of(12345678), "12345678");
    assert_eq!(otp_code_of(7), "00000007");
    assert_eq!(otp_code_of(7).parse::<u64>().unwrap(), 7);
}
