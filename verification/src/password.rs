//! Password hashing for the control panel's password login (Argon2, PHC
//! strings).

use vstd::prelude::*;

use argon2::password_hash::{Error as HashError, SaltString};
use argon2::{PasswordHasher, PasswordVerifier};

verus! {

#[verifier::external_type_specification]
#[verifier::external_body]
pub struct ExHashError(HashError);

/// Whether Argon2 accepts `password` against the PHC string `phc`: the string
/// parses as a password hash and recomputing the hash of `password` with its
/// parameters and salt gives the stored hash.
pub uninterp spec fn argon2_accepts(password: Seq<u8>, phc: Seq<char>) -> bool;

/// A PHC string of the Argon2 family: it starts with `$argon2`.
pub open spec fn is_argon2_phc(h: Seq<char>) -> bool {
    h.len() >= 7 && h.take(7) == "$argon2"@
}

/// The longest password Argon2 takes, in bytes.
pub const MAX_PASSWORD_BYTES: u64 = 0xFFFF_FFFF;

/// Wraps `Argon2::default().hash_password(password, salt)` with a fresh salt
/// from `SaltString::generate` on the operating system's random source,
/// rendered as a PHC string. Claims what argon2's source and documentation
/// show: a hash it produces is accepted when the same password is verified
/// against it; as `PasswordHash`'s `Display` writes `$` and the algorithm's
/// identifier (`argon2id` for the default), the string starts with
/// `$argon2`; and hashing succeeds for a password of at most `u32::MAX`
/// bytes, as the generated salt (16 bytes) and the default parameters pass
/// every other check of `hash_password`.
#[verifier::external_body]
fn argon2_hash_fresh(password: &[u8]) -> (r: Result<String, HashError>)
    ensures
        r is Ok ==> argon2_accepts(password@, r.unwrap()@),
        r is Ok ==> is_argon2_phc(r.unwrap()@),
        password@.len() <= MAX_PASSWORD_BYTES ==> r is Ok,
{
    let salt = SaltString::generate(&mut argon2::password_hash::rand_core::OsRng);
    argon2::Argon2::default().hash_password(password, &salt).map(|h| h.to_string())
}

/// Wraps `PasswordHash::new(phc)` followed by
/// `Argon2::default().verify_password(password, &parsed)`. Claims that the
/// answer is the named acceptance of `password` against `phc`, and, as
/// `PasswordHash::parse` refuses an empty string and one whose first field
/// (before the first `$`) is not empty, that such a string is not accepted.
#[verifier::external_body]
fn argon2_verify(password: &[u8], phc: &str) -> (ok: bool)
    ensures
        ok == argon2_accepts(password@, phc@),
        (phc@.len() == 0 || phc@[0] != '$') ==> !ok,
{
    match argon2::password_hash::PasswordHash::new(phc) {
        Ok(parsed) => argon2::Argon2::default().verify_password(password, &parsed).is_ok(),
        Err(_) => false,
    }
}

/// Why a password could not be hashed.
#[derive(Debug)]
pub struct PasswordHashFailure {
    pub reason: HashError,
}

/// Whether `password` verifies against the stored hash `hash`.
pub open spec fn password_matches(password: Seq<char>, hash: Seq<char>) -> bool {
    argon2_accepts(vstd::utf8::encode_utf8(password), hash)
}

/// Hashes a password for storage in `panel.toml`: Argon2 with a fresh random
/// salt, as a PHC string. Hashing succeeds for any password of at most
/// `u32::MAX` bytes, and the hash is accepted when the same password is
/// checked against it.
pub fn hash_password(password: &str) -> (r: Result<String, PasswordHashFailure>)
    ensures
        r matches Ok(h) ==> password_matches(password@, h@) && is_argon2_phc(h@),
        vstd::utf8::encode_utf8(password@).len() <= MAX_PASSWORD_BYTES ==> r is Ok,
{
    match argon2_hash_fresh(password.as_bytes()) {
        Ok(h) => Ok(h),
        Err(e) => Err(PasswordHashFailure { reason: e }),
    }
}

/// Checks a password against a stored hash. A damaged or empty hash is
/// refused like a wrong password.
pub fn verify_password(password: &str, hash: &str) -> (ok: bool)
    ensures
        ok == password_matches(password@, hash@),
        (hash@.len() == 0 || hash@[0] != '$') ==> !ok,
{
    argon2_verify(password.as_bytes(), hash)
}

} // verus!
