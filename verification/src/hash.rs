use crate::error::Error;
use vstd::prelude::*;

verus! {

/// Whether password_hash::PasswordHash::new accepts `hash` as a PHC-formatted
/// string. Parsing is a function of the characters alone.
pub uninterp spec fn phc_parses(hash: Seq<char>) -> bool;

/// Whether argon2's verification with default settings accepts `password`
/// against the PHC string `hash`. Verification re-derives the digest with the
/// algorithm, parameters and salt embedded in `hash` and compares, so for a
/// parseable `hash` the outcome is a function of the two arguments alone.
pub uninterp spec fn phc_verifies(password: Seq<char>, hash: Seq<char>) -> bool;

/// Relies on argon2::PasswordHasher::hash_password with Argon2::default() and
/// a fresh random salt from SaltString::generate(OsRng). The returned PHC
/// string records the algorithm, parameters and salt that produced it, so it
/// parses back, and re-verifying the hashed password against it succeeds.
/// The string itself depends on the random salt, so no more is promised.
#[verifier::external_body]
fn argon2_hash(data: &String) -> (r: Result<String, Error>)
    ensures
        r matches Ok(h) ==> phc_parses(h@) && phc_verifies(data@, h@),
        r matches Err(e) ==> e == Error::Hashing,
{
    let salt = argon2::password_hash::SaltString::generate(
        &mut argon2::password_hash::rand_core::OsRng,
    );
    match argon2::PasswordHasher::hash_password(&argon2::Argon2::default(), data.as_bytes(), &salt)
    {
        Ok(hashed) => Ok(hashed.to_string()),
        Err(_) => Err(Error::Hashing),
    }
}

/// Relies on password_hash::PasswordHash::new and argon2's
/// PasswordVerifier::verify_password with Argon2::default(): true exactly when
/// `hashed` parses as a PHC string and re-deriving `plain` with the parameters
/// and salt embedded in it reproduces the recorded digest.
#[verifier::external_body]
fn argon2_verify(plain: &String, hashed: &String) -> (r: bool)
    ensures
        r == (phc_parses(hashed@) && phc_verifies(plain@, hashed@)),
{
    match argon2::password_hash::PasswordHash::new(hashed.as_str()) {
        Ok(parsed) => argon2::PasswordVerifier::verify_password(
            &argon2::Argon2::default(),
            plain.as_bytes(),
            &parsed,
        )
        .is_ok(),
        Err(_) => false,
    }
}

/// What a 32-byte SHA3-256 digest of the input characters is. The digest is a
/// function of the input alone.
pub uninterp spec fn sha3_of(data: Seq<char>) -> Seq<u8>;

/// Relies on sha3::Sha3_256 (Digest::update then Digest::finalize): the
/// 32-byte SHA3-256 digest of the input's bytes.
#[verifier::external_body]
pub fn hash_with_sha3(data: &String) -> (r: [u8; 32])
    ensures
        r@ == sha3_of(data@),
        r@.len() == 32,
{
    let mut hasher = <sha3::Sha3_256 as sha3::Digest>::new();
    sha3::Digest::update(&mut hasher, data);
    sha3::Digest::finalize(hasher).into()
}

/// One-way salted hashing and verification of account passwords.
///
/// `hash_data` never returns a string that `cmp_data` rejects for the hashed
/// password, and `cmp_data` fails closed: a malformed stored hash verifies as
/// false rather than raising an error.
pub trait Hasher {
    fn hash_data(&self, data: &String) -> (r: Result<String, Error>)
        ensures
            r matches Ok(h) ==> phc_parses(h@) && phc_verifies(data@, h@),
            r matches Err(e) ==> e == Error::Hashing,
    ;

    fn cmp_data(&self, plain_data: &String, hashed_data: &String) -> (r: Result<bool, Error>)
        ensures
            r matches Ok(b) && b == (phc_parses(hashed_data@) && phc_verifies(
                plain_data@,
                hashed_data@,
            )),
    ;
}

/// The production credential hasher, backed by Argon2id with its default
/// parameters.
#[derive(Clone, Copy)]
pub struct Argon2Hasher;

impl Argon2Hasher {
    pub fn new() -> (r: Self) {
        Argon2Hasher
    }
}

impl Hasher for Argon2Hasher {
    fn hash_data(&self, data: &String) -> (r: Result<String, Error>) {
        argon2_hash(data)
    }

    fn cmp_data(&self, plain_data: &String, hashed_data: &String) -> (r: Result<bool, Error>) {
        Ok(argon2_verify(plain_data, hashed_data))
    }
}

} // verus!
