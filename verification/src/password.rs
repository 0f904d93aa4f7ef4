use vstd::prelude::*;
use argon2::{PasswordHasher, PasswordVerifier};
use vstd::utf8::encode_utf8;

verus! {

/// Whether `hash` is a PHC string that `PasswordHash::new` accepts.
pub uninterp spec fn phc_string_parses(hash: Seq<char>) -> bool;

/// Whether Argon2 (default parameters) verifies `password` against the PHC string `hash`.
pub uninterp spec fn argon2_accepts(password: Seq<u8>, hash: Seq<char>) -> bool;

/// `PasswordHash::new(hash).is_ok()`: whether `hash` parses as a PHC string. The result
/// is named by `phc_string_parses`; the PHC grammar is not restated.
#[verifier::external_body]
pub(crate) fn hash_parses(hash: &str) -> (r: bool)
    ensures
        r == phc_string_parses(hash@),
{
    argon2::PasswordHash::new(hash).is_ok()
}

/// `Argon2::default().verify_password(password, &PasswordHash::new(hash))`, as a
/// `bool`, for a `hash` that parses as a PHC string. The result is named by
/// `argon2_accepts`; the Argon2 algorithm is not restated.
#[verifier::external_body]
pub(crate) fn argon2_verify(password: &[u8], hash: &str) -> (r: bool)
    requires
        phc_string_parses(hash@),
    ensures
        r == argon2_accepts(password@, hash@),
{
    match argon2::PasswordHash::new(hash) {
        Ok(parsed) => argon2::Argon2::default().verify_password(password, &parsed).is_ok(),
        Err(_) => false,
    }
}

/// `Argon2::default().hash_password(password, &SaltString::generate(&mut OsRng))`, as
/// a PHC string. The salt is random, so the string itself is not named. Claimed, from
/// the crates' source and documentation: a generated salt holds 16 bytes (encoded in 22
/// characters, within the 4 to 64 a salt string allows, and above Argon2's minimum of 8),
/// so hashing a password of at most `u32::MAX` bytes succeeds; and the string it gives
/// parses and verifies the same password.
#[verifier::external_body]
pub(crate) fn argon2_hash_fresh_salt(password: &[u8]) -> (r: Option<String>)
    ensures
        password@.len() <= 0xFFFF_FFFF ==> r is Some,
        r matches Some(h) ==> phc_string_parses(h@) && argon2_accepts(password@, h@),
{
    let salt = argon2::password_hash::SaltString::generate(&mut argon2::password_hash::rand_core::OsRng);
    match argon2::Argon2::default().hash_password(password, &salt) {
        Ok(h) => Some(h.to_string()),
        Err(_) => None,
    }
}

/// The PHC string of `password` under a fresh random salt: it verifies `password`.
pub fn hash_new_password(password: &str) -> (hash: String)
    requires
        encode_utf8(password@).len() <= 0xFFFF_FFFF,
    ensures
        phc_string_parses(hash@),
        argon2_accepts(encode_utf8(password@), hash@),
{
    match argon2_hash_fresh_salt(password.as_bytes()) {
        Some(h) => h,
        None => {
            assert(false);
            String::new()
        },
    }
}

/// The row a new user account is stored as (the date of birth is kept apart).
pub struct NewAccount {
    pub username: String,
    pub password_hash: String,
    pub first_name: String,
    pub last_name: String,
    pub email: String,
}

/// Whether `password` logs in against the stored hashes of a user (none when the user
/// is unknown): the first stored hash must verify it.
pub open spec fn login_accepted(password: Seq<char>, stored_hashes: Seq<Seq<char>>) -> bool {
    stored_hashes.len() > 0 && argon2_accepts(encode_utf8(password), stored_hashes[0])
}

} // verus!
