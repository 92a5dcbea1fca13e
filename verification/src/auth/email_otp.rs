//! One-time codes sent by email: the reasons one is issued, the data a new
//! code row is created from, and the code generator itself. The draw is
//! random, so the generator promises only shape; the spelling of a drawn
//! value is a separate function with an exact contract.

use rand::RngExt;
use vstd::prelude::*;

verus! {

/// Why a one-time code was issued.
#[derive(Clone, PartialEq, Eq, Debug, Structural)]
pub enum OtpReason {
    ChangePassword,
    ChangeEmailAddress,
    DeleteAccount,
}

/// The data a new one-time-code row is created from.
#[derive(Debug, Clone)]
pub struct CreateNewEmailOtp {
    pub email: String,
    pub otp: String,
    pub reason: OtpReason,
}

/// Relies on rand::rng and RngExt::random_range: a uniform draw below the
/// bound; nothing more is promised of a random result.
#[verifier::external_body]
fn random_below(bound: u64) -> (r: u64)
    requires
        1 <= bound,
    ensures
        r < bound,
{
    rand::rng().random_range(0..bound)
}

/// Relies on String::from_utf8: ASCII digit bytes are valid UTF-8 and form
/// the string of exactly those characters.
#[verifier::external_body]
fn digits_to_string(digits: Vec<u8>) -> (r: String)
    requires
        forall|i: int| 0 <= i < digits@.len() ==> 48 <= #[trigger] digits@[i] <= 57,
    ensures
        r@.len() == digits@.len(),
        forall|i: int| 0 <= i < digits@.len() ==> #[trigger] r@[i] as u32 == digits@[i] as u32,
{
    match String::from_utf8(digits) {
        Ok(s) => s,
        Err(_) => String::new(),
    }
}

/// The power of ten that selects the `i`-th digit, most significant first,
/// of an eight-digit code.
pub open spec fn otp_divisor(i: int) -> u64 {
    if i == 0 {
        10000000
    } else if i == 1 {
        1000000
    } else if i == 2 {
        100000
    } else if i == 3 {
        10000
    } else if i == 4 {
        1000
    } else if i == 5 {
        100
    } else if i == 6 {
        10
    } else {
        1
    }
}

/// The `i`-th byte, most significant digit first, of the eight-digit
/// zero-padded decimal spelling of `n`: an ASCII digit.
pub open spec fn otp_digit(n: u64, i: int) -> u8 {
    (48 + (n / otp_divisor(i)) % 10) as u8
}

/// The divisor for position `k`.
fn otp_divisor_at(k: usize) -> (r: u64)
    requires
        k < 8,
    ensures
        r == otp_divisor(k as int),
        1 <= r,
{
    if k == 0 {
        10000000
    } else if k == 1 {
        1000000
    } else if k == 2 {
        100000
    } else if k == 3 {
        10000
    } else if k == 4 {
        1000
    } else if k == 5 {
        100
    } else if k == 6 {
        10
    } else {
        1
    }
}

/// The eight-digit, zero-padded decimal spelling of a draw below one
/// hundred million: character `i` is exactly the `i`-th decimal digit of
/// `n`, most significant first.
pub fn otp_code_of(n: u64) -> (r: String)
    requires
        n < 100000000,
    ensures
        r@.len() == 8,
        forall|i: int| 0 <= i < 8 ==> #[trigger] r@[i] as u32 == otp_digit(n, i) as u32,
{
    let mut digits: Vec<u8> = Vec::new();
    let mut k: usize = 0;
    while k < 8
        invariant
            0 <= k <= 8,
            digits@.len() == k,
            forall|i: int| 0 <= i < k ==> #[trigger] digits@[i] == otp_digit(n, i),
        decreases 8 - k,
    {
        let div = otp_divisor_at(k);
        let d = ((n / div) % 10) as u8;
        digits.push(d + 48);
        k = k + 1;
    }
    proof {
        assert forall|i: int| 0 <= i < 8 implies 48 <= #[trigger] digits@[i] <= 57 by {
            assert(digits@[i] == otp_digit(n, i));
        }
    }
    digits_to_string(digits)
}

/// A fresh one-time code: the eight-digit zero-padded spelling of a value
/// drawn uniformly below one hundred million.
pub fn generate_otp_code() -> (r: String)
    ensures
        r@.len() == 8,
        forall|i: int| 0 <= i < 8 ==> 48 <= #[trigger] r@[i] as u32 <= 57,
{
    let n = random_below(100000000);
    let code = otp_code_of(n);
    proof {
        assert forall|i: int| 0 <= i < 8 implies 48 <= #[trigger] code@[i] as u32 <= 57 by {
            assert(code@[i] as u32 == otp_digit(n, i) as u32);
        }
    }
    code
}

} // verus!
