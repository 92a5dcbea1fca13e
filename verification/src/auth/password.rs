//! Password hashing and verification through the argon2 algorithm. A
//! configuration may carry an optional secret key that enters both
//! hashing and verification, and that secret lives inside the opaque
//! configuration value; so nothing here claims the outcome of a
//! verification as a function of the password and hash strings alone.
//! What is stated is what holds for every configuration: a hash string
//! that does not parse as a PHC string never matches, and a produced hash
//! is itself a parseable PHC string.

use argon2::password_hash::{PasswordHasher, PasswordVerifier};
use argon2::password_hash::phc::PasswordHash;
use vstd::prelude::*;

verus! {

/// The argon2 configuration value, opaque to this crate.
#[verifier::external_type_specification]
#[verifier::external_body]
pub struct ExArgon2<'key>(argon2::Argon2<'key>);

/// Relies on the derived `Clone` of the argon2 configuration, a struct of
/// plain data: the clone is an equal value.
pub assume_specification<'key>[ <argon2::Argon2<'key> as Clone>::clone ](v: &argon2::Argon2<'key>) -> (r: argon2::Argon2<'key>)
    ensures
        r == *v,
;

/// The classes of password-hashing faults.
#[derive(Debug, Clone, PartialEq, Eq)]
pub enum PasswordHashError {
    /// An I/O fault, with its diagnostic text.
    Io(String),
    /// The algorithm configuration is invalid.
    InvalidConfig,
    /// Encoding the hash failed.
    EncodingFailed,
    /// Decoding the hash, or the password against it, failed.
    DecodeFailed,
    /// Any other fault.
    UnknownError,
}

/// Whether a string parses as a PHC hash string: what
/// phc::PasswordHash::new accepts, a function of the string alone.
pub uninterp spec fn phc_parses(hash: Seq<char>) -> bool;

/// Password hashing and verification.
pub trait PasswordAlgorithm {
    /// Which hash strings this algorithm can read at all.
    spec fn spec_hash_well_formed(&self, hash: Seq<char>) -> bool;

    /// Hashes a password under a fresh random salt.
    fn hash_password(&self, password: &str) -> Result<String, PasswordHashError>;

    /// Verifies a password against a hash; a hash the algorithm cannot
    /// read never matches, and nothing panics or errors on one.
    fn verify_password(&self, password: &str, hash: &str) -> (r: bool)
        ensures
            !self.spec_hash_well_formed(hash@) ==> r == false,
    ;
}

/// What one verification attempt reported.
#[derive(Debug, Clone, Copy, PartialEq, Eq, Structural)]
enum PasswordCheck {
    Matched,
    NotMatched,
    HashMalformed,
    Failed,
}

/// Relies on phc::PasswordHash::new and Argon2::verify_password: parse the
/// PHC hash string, then check the password against it under the given
/// configuration (whose optional secret key enters the comparison, so no
/// more is claimed of a match). Parsing is a function of the hash string
/// alone and happens first: an unparseable hash reports exactly
/// `HashMalformed`.
#[verifier::external_body]
fn argon2_check(config: &argon2::Argon2<'_>, password: &str, hash: &str) -> (r: PasswordCheck)
    ensures
        (r is HashMalformed) == !phc_parses(hash@),
{
    match PasswordHash::new(hash) {
        Err(_) => PasswordCheck::HashMalformed,
        Ok(parsed) => match config.verify_password(password.as_bytes(), &parsed) {
            Ok(()) => PasswordCheck::Matched,
            Err(argon2::password_hash::Error::PasswordInvalid) => PasswordCheck::NotMatched,
            Err(_) => PasswordCheck::Failed,
        },
    }
}

/// Relies on Argon2::hash_password: the PHC string of the password under a
/// fresh random salt — nothing more is promised of a random result than
/// that it is a parseable PHC string — or the fault, classified one
/// variant per arm: parameter faults as invalid configuration, encoding
/// faults as failed encoding, a rejected password as failed decoding.
#[verifier::external_body]
fn argon2_hash(config: &argon2::Argon2<'_>, password: &str) -> (r: Result<
    String,
    PasswordHashError,
>)
    ensures
        r matches Ok(h) ==> phc_parses(h@),
{
    match config.hash_password(password.as_bytes()) {
        Ok(hash) => Ok(hash.to_string()),
        Err(argon2::password_hash::Error::Algorithm | argon2::password_hash::Error::OutputSize | argon2::password_hash::Error::ParamInvalid { .. } | argon2::password_hash::Error::ParamsInvalid | argon2::password_hash::Error::Version) => Err(PasswordHashError::InvalidConfig),
        Err(argon2::password_hash::Error::EncodingInvalid | argon2::password_hash::Error::Crypto | argon2::password_hash::Error::SaltInvalid) => Err(PasswordHashError::EncodingFailed),
        Err(argon2::password_hash::Error::PasswordInvalid) => Err(PasswordHashError::DecodeFailed),
        Err(_) => Err(PasswordHashError::UnknownError),
    }
}

/// Argon2 password hashing and verification.
#[derive(Clone, Default)]
pub struct Argon2PasswordAlgorithm<'key> {
    config: argon2::Argon2<'key>,
}

impl<'key> Argon2PasswordAlgorithm<'key> {
    /// The wrapped configuration.
    pub closed spec fn spec_config(&self) -> argon2::Argon2<'key> {
        self.config
    }

    /// Creates a new [`Argon2PasswordAlgorithm`] with the given config.
    pub fn new(config: argon2::Argon2<'key>) -> (r: Argon2PasswordAlgorithm<'key>)
        ensures
            r.spec_config() == config,
    {
        Argon2PasswordAlgorithm { config }
    }
}

impl<'key> PasswordAlgorithm for Argon2PasswordAlgorithm<'key> {
    open spec fn spec_hash_well_formed(&self, hash: Seq<char>) -> bool {
        phc_parses(hash)
    }

    fn hash_password(&self, password: &str) -> Result<String, PasswordHashError> {
        argon2_hash(&self.config, password)
    }

    fn verify_password(&self, password: &str, hash: &str) -> (r: bool) {
        match argon2_check(&self.config, password, hash) {
            PasswordCheck::Matched => true,
            PasswordCheck::NotMatched => false,
            PasswordCheck::HashMalformed => false,
            PasswordCheck::Failed => false,
        }
    }
}

} // verus!
