//! Password hashing and random tokens.

use vstd::prelude::*;
use pbkdf2::password_hash::{PasswordHash, PasswordHasher, PasswordVerifier, SaltString};
use pbkdf2::Pbkdf2;
use crate::text::{hex_lower, to_hex_lower};

verus! {

#[verifier::external_type_specification]
#[verifier::external_body]
pub struct ExSaltString(SaltString);

#[verifier::external_type_specification]
#[verifier::external_body]
pub struct ExErrorStack(openssl::error::ErrorStack);

/// Whether `PasswordHash::new` accepts `hash` as a PHC hash string.
pub uninterp spec fn phc_hash_parses(hash: Seq<char>) -> bool;

/// Whether `Pbkdf2.verify_password` accepts `password` against the PHC
/// hash string `hash`.
pub uninterp spec fn pbkdf2_accepts(password: Seq<char>, hash: Seq<char>) -> bool;

/// A fresh random salt: `SaltString::generate` drawing from the operating
/// system's random source. Nothing is stated of the salt: it is random.
#[verifier::external_body]
fn fresh_salt() -> (salt: SaltString) {
    SaltString::generate(&mut pbkdf2::password_hash::rand_core::OsRng)
}

/// `Pbkdf2.hash_password` with the default parameters, written out as a PHC
/// string. The contract claims what the crate's source shows: the string
/// parses again, and `verify_password` accepts the password against it (it
/// recomputes the hash from the salt and parameters the string holds).
/// Which salt the string holds is not stated.
#[verifier::external_body]
fn pbkdf2_hash(password: &str, salt: &SaltString) -> (hash: String)
    ensures
        phc_hash_parses(hash@),
        pbkdf2_accepts(password@, hash@),
{
    Pbkdf2.hash_password(password.as_bytes(), salt).unwrap().to_string()
}

/// `PasswordHash::new(hash).is_ok()`.
#[verifier::external_body]
fn phc_parses(hash: &str) -> (ok: bool)
    ensures
        ok == phc_hash_parses(hash@),
{
    PasswordHash::new(hash).is_ok()
}

/// `Pbkdf2.verify_password` against the parsed hash string.
#[verifier::external_body]
fn pbkdf2_verify(password: &str, hash: &str) -> (ok: bool)
    requires
        phc_hash_parses(hash@),
    ensures
        ok == pbkdf2_accepts(password@, hash@),
{
    Pbkdf2.verify_password(password.as_bytes(), &PasswordHash::new(hash).unwrap()).is_ok()
}

/// `openssl::rand::rand_bytes`: fills `buf` with random bytes. The length
/// of the buffer is kept; its contents are random and not stated.
#[verifier::external_body]
fn openssl_rand_bytes(buf: &mut Vec<u8>) -> (r: Result<(), openssl::error::ErrorStack>)
    requires
        old(buf).len() <= i32::MAX,
    ensures
        final(buf)@.len() == old(buf)@.len(),
{
    openssl::rand::rand_bytes(buf.as_mut_slice())
}

/// Hashes a password with PBKDF2 and a fresh random salt, as a PHC string
/// that `validate_password` accepts the same password against.
pub fn hash_password(password: String) -> (hash: String)
    ensures
        phc_hash_parses(hash@),
        pbkdf2_accepts(password@, hash@),
{
    let salt = fresh_salt();
    pbkdf2_hash(password.as_str(), &salt)
}

/// Whether `password` matches the PHC hash string `hash`.
pub fn validate_password(password: String, hash: String) -> (ok: bool)
    requires
        phc_hash_parses(hash@),
    ensures
        ok == pbkdf2_accepts(password@, hash@),
{
    pbkdf2_verify(password.as_str(), hash.as_str())
}

/// Whether `password` matches `hash`, or `None` where `hash` is not a PHC
/// hash string (where `validate_password` cannot be asked).
pub fn check_password(password: String, hash: String) -> (r: Option<bool>)
    ensures
        r is Some <==> phc_hash_parses(hash@),
        r matches Some(ok) ==> ok == pbkdf2_accepts(password@, hash@),
{
    if phc_parses(hash.as_str()) {
        Some(validate_password(password, hash))
    } else {
        None
    }
}

/// The random source could not give bytes.
#[derive(Debug, PartialEq, Eq, Structural)]
pub struct RandomSourceError;

/// `len` random bytes written as `2 * len` lower-case hexadecimal digits.
pub fn get_random_string(len: i32) -> (r: Result<String, RandomSourceError>)
    requires
        len >= 0,
    ensures
        r matches Ok(s) ==> exists|bytes: Seq<u8>| bytes.len() == len && s@ == hex_lower(bytes),
{
    let n = len as usize;
    let mut buf: Vec<u8> = Vec::new();
    let mut i: usize = 0;
    while i < n
        invariant
            i <= n,
            n == len,
            buf@.len() == i,
        decreases n - i,
    {
        buf.push(0u8);
        i = i + 1;
    }
    match openssl_rand_bytes(&mut buf) {
        Ok(()) => {
            let s = to_hex_lower(buf.as_slice());
            assert(buf@.len() == len && s@ == hex_lower(buf@));
            Ok(s)
        },
        Err(_) => Err(RandomSourceError),
    }
}

} // verus!
