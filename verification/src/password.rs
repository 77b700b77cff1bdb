//! Password hashing and verification, consumed by login as an opaque
//! check of a plaintext password against a stored hash.

use vstd::prelude::*;
use argon2::{PasswordHasher, PasswordVerifier};

verus! {

/// What password verification computes for a plaintext password and a
/// stored PHC-format hash string: nothing when the hash string cannot be
/// parsed, otherwise whether the password matches. The outcome is a
/// function of the two strings alone.
pub uninterp spec fn password_check(password: Seq<char>, hash: Seq<char>) -> Option<bool>;

/// The error password handling reports: the stored hash string is not a
/// well-formed PHC hash.
#[derive(Clone, Copy, Debug, PartialEq, Eq, Structural)]
pub enum PasswordError {
    InvalidHash,
}

/// Verify a password against a hash.
///
/// Relies on `argon2::PasswordHash::new` and
/// `argon2::Argon2::verify_password`: parsing the hash fails exactly on a
/// malformed PHC string, and verification recomputes the hash from the
/// password deterministically, so the outcome is [`password_check`] of
/// the two strings.
#[verifier::external_body]
pub fn verify_password(password: &str, hash: &str) -> (r: Result<bool, PasswordError>)
    ensures
        r matches Ok(b) ==> password_check(password@, hash@) == Some(b),
        r matches Err(e) ==> password_check(password@, hash@) is None
            && e == PasswordError::InvalidHash,
{
    let argon2 = argon2::Argon2::default();
    let parsed_hash = match argon2::PasswordHash::new(hash) {
        Ok(h) => h,
        Err(_) => {
            return Err(PasswordError::InvalidHash);
        },
    };
    Ok(argon2.verify_password(password.as_bytes(), &parsed_hash).is_ok())
}

/// Generate an `argon2` password hash from `password`.
///
/// Relies on `argon2::Argon2::hash_password`, which draws a fresh random
/// salt, so the hash's value is not pinned; but whatever salt was drawn
/// is embedded in the produced PHC string, and verification recomputes
/// the hash from that salt and those parameters deterministically, so
/// every generated hash verifies against its password. It errs only on
/// passwords the algorithm rejects.
#[verifier::external_body]
pub fn gen_password_hash(password: &str) -> (r: Result<String, PasswordError>)
    ensures
        r matches Ok(h) ==> password_check(password@, h@) == Some(true),
        r matches Err(e) ==> e == PasswordError::InvalidHash,
{
    match argon2::Argon2::default().hash_password(password.as_bytes()) {
        Ok(h) => Ok(h.to_string()),
        Err(_) => Err(PasswordError::InvalidHash),
    }
}

} // verus!
