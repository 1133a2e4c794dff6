use vstd::prelude::*;

use crate::decimal::digit_char;

verus! {

/// Whether a password matches a bcrypt hash: `Some(true)` or `Some(false)`,
/// or `None` where the hash is malformed.
pub uninterp spec fn bcrypt_verdict(password: Seq<char>, hash: Seq<char>) -> Option<bool>;

#[verifier::external_type_specification]
#[verifier::external_body]
pub struct ExBcryptError(bcrypt::BcryptError);

/// A character of bcrypt's base-64 alphabet.
pub open spec fn bcrypt_base64_char(c: char) -> bool {
    c == '.' || c == '/' || ('A' <= c && c <= 'Z') || ('a' <= c && c <= 'z') || ('0' <= c && c
        <= '9')
}

/// The modular crypt form of a bcrypt hash made at `cost`: `$2b$`, the cost
/// in two digits, `$`, then 22 characters of salt and 31 of digest.
pub open spec fn bcrypt_form(h: Seq<char>, cost: nat) -> bool {
    &&& h.len() == 60
    &&& h[0] == '$' && h[1] == '2' && h[2] == 'b' && h[3] == '$'
    &&& h[4] == digit_char(cost / 10) && h[5] == digit_char(cost % 10)
    &&& h[6] == '$'
    &&& forall|i: int| 7 <= i < 60 ==> bcrypt_base64_char(#[trigger] h[i])
}

/// A password could not be hashed, or a stored hash could not be read.
#[derive(Debug, Clone, Copy, PartialEq, Eq, Structural)]
pub struct HashingError;

/// The lowest cost that bcrypt takes.
pub const MIN_COST: u32 = 4;

/// The highest cost that bcrypt takes.
pub const MAX_COST: u32 = 31;

/// Relies on `bcrypt::hash`: it salts with fresh random bytes, refuses a cost
/// outside 4..=31, writes the hash in the `$2b$` form with the cost in two
/// digits and salt and digest in bcrypt's base 64, and `bcrypt::verify` of the
/// same password against the hash it returns recomputes the same digest.
#[verifier::external_body]
fn bcrypt_hash(password: &str, cost: u32) -> (r: Result<String, bcrypt::BcryptError>)
    ensures
        cost < 4 || cost > 31 ==> r is Err,
        r matches Ok(h) ==> bcrypt_verdict(password@, h@) == Some(true) && bcrypt_form(
            h@,
            cost as nat,
        ),
{
    bcrypt::hash(password, cost)
}

/// Relies on `bcrypt::verify`: it recomputes the digest with the hash's own
/// salt and cost, and fails on a malformed hash; the answer depends on its
/// arguments alone.
#[verifier::external_body]
fn bcrypt_verify(password: &str, hash: &str) -> (r: Result<bool, bcrypt::BcryptError>)
    ensures
        r matches Ok(b) ==> bcrypt_verdict(password@, hash@) == Some(b),
        r is Err ==> bcrypt_verdict(password@, hash@) is None,
{
    bcrypt::verify(password, hash)
}

/// Relies on `bcrypt::DEFAULT_COST`, which is 12.
#[verifier::external_body]
pub fn default_cost() -> (r: u32)
    ensures
        r == 12,
{
    bcrypt::DEFAULT_COST
}

/// What checking `password` against `hash` answers.
pub open spec fn verify_outcome(password: Seq<char>, hash: Seq<char>) -> Result<bool, HashingError> {
    match bcrypt_verdict(password, hash) {
        Some(b) => Ok(b),
        None => Err(HashingError),
    }
}

/// Hashes a password with a fresh salt at the given cost.
pub fn hash_password(password: &str, cost: u32) -> (r: Result<String, HashingError>)
    ensures
        cost < MIN_COST || cost > MAX_COST ==> r is Err,
        r matches Ok(h) ==> bcrypt_verdict(password@, h@) == Some(true) && bcrypt_form(
            h@,
            cost as nat,
        ),
{
    match bcrypt_hash(password, cost) {
        Ok(h) => Ok(h),
        Err(_) => Err(HashingError),
    }
}

/// Checks a password against a stored hash.
pub fn verify_password(password: &str, hash: &str) -> (r: Result<bool, HashingError>)
    ensures
        r == verify_outcome(password@, hash@),
{
    match bcrypt_verify(password, hash) {
        Ok(b) => Ok(b),
        Err(_) => Err(HashingError),
    }
}

/// A hash that `hash_password` made from a password verifies against that
/// same password.
pub proof fn lemma_hash_then_verify(password: Seq<char>, hash: Seq<char>)
    requires
        bcrypt_verdict(password, hash) == Some(true),
    ensures
        verify_outcome(password, hash) == Ok::<bool, HashingError>(true),
{
}

} // verus!
