use crate::error::Error;
use vstd::prelude::*;
use vstd::utf8::{decode_utf8, encode_utf8, valid_utf8};

verus! {

/// What argon2's key derivation with default parameters produces over a
/// password and a salt: 32 bytes of key material, a function of the two
/// arguments alone, so the key can be re-derived locally and never persisted.
pub uninterp spec fn kdf_key(password: Seq<char>, salt: Seq<u8>) -> Seq<u8>;

/// What AES-256-GCM produces when sealing a plaintext under a key and a
/// nonce: the ciphertext with its 16-byte authentication tag appended, a
/// function of the three arguments alone.
pub uninterp spec fn seal(key: Seq<u8>, nonce: Seq<u8>, plain: Seq<u8>) -> Seq<u8>;

/// Relies on argon2::Argon2::hash_password_into with default parameters:
/// fills the 32-byte buffer with key material that is a function of the
/// password and the salt alone. With a 32-byte salt and a 32-byte output the
/// call rejects no input but a password longer than `u32::MAX` bytes, so
/// success is owed for every shorter password, whatever its content.
#[verifier::external_body]
fn derive_key(plain_password: &String, salt: &[u8; 32]) -> (r: Result<[u8; 32], Error>)
    ensures
        r matches Ok(k) ==> k@ == kdf_key(plain_password@, salt@),
        r matches Err(e) ==> e == Error::KeyDerivation,
        encode_utf8(plain_password@).len() <= 0xFFFF_FFFF ==> r is Ok,
{
    let mut key = [0u8; 32];
    match argon2::Argon2::default().hash_password_into(plain_password.as_bytes(), salt, &mut key) {
        Ok(()) => Ok(key),
        Err(_) => Err(Error::KeyDerivation),
    }
}

/// Relies on aes_gcm::AeadCore::generate_nonce with OsRng: 12 bytes from a
/// cryptographically secure source. The result is random, so nothing is
/// promised of it beyond its length, which the type carries.
#[verifier::external_body]
fn generate_nonce() -> (r: [u8; 12]) {
    <aes_gcm::Aes256Gcm as aes_gcm::AeadCore>::generate_nonce(&mut aes_gcm::aead::OsRng).into()
}

/// Relies on aes_gcm::aead::Aead::encrypt for AES-256-GCM: the returned
/// ciphertext (tag appended) is the sealing of the plaintext under the key
/// and the nonce, and is 16 bytes longer than the plaintext. The call
/// rejects only a plaintext longer than 2^36 bytes, so success is owed for
/// everything shorter.
#[verifier::external_body]
fn aead_seal(key: &[u8; 32], nonce: &[u8; 12], plaintext: &[u8]) -> (r: Result<Vec<u8>, Error>)
    ensures
        r matches Ok(c) ==> c@ == seal(key@, nonce@, plaintext@),
        r matches Ok(c) ==> c@.len() == plaintext@.len() + 16,
        r matches Err(e) ==> e == Error::AuthenticationFailure,
        plaintext@.len() <= 0x10_0000_0000 ==> r is Ok,
{
    let cipher = <aes_gcm::Aes256Gcm as aes_gcm::KeyInit>::new(key.into());
    match aes_gcm::aead::Aead::encrypt(&cipher, aes_gcm::Nonce::from_slice(nonce), plaintext) {
        Ok(content) => Ok(content),
        Err(_) => Err(Error::AuthenticationFailure),
    }
}

/// Relies on aes_gcm::aead::Aead::decrypt for AES-256-GCM: it succeeds
/// exactly on ciphertexts that are the sealing of some plaintext under the
/// same key and nonce, and returns that plaintext. The counter-mode keystream
/// XOR is a bijection for a fixed key and nonce, so the plaintext whose
/// sealing matches is unique.
#[verifier::external_body]
fn aead_open(key: &[u8; 32], nonce: &[u8; 12], ciphertext: &[u8]) -> (r: Option<Vec<u8>>)
    ensures
        (match r {
            Some(p) => ciphertext@ == seal(key@, nonce@, p@) && (forall|q: Seq<u8>|
                ciphertext@ == seal(key@, nonce@, q) ==> q == p@),
            None => forall|q: Seq<u8>| ciphertext@ != seal(key@, nonce@, q),
        }),
{
    let cipher = <aes_gcm::Aes256Gcm as aes_gcm::KeyInit>::new(key.into());
    aes_gcm::aead::Aead::decrypt(&cipher, aes_gcm::Nonce::from_slice(nonce), ciphertext).ok()
}

/// Relies on String::from_utf8: it succeeds exactly on valid UTF-8 byte
/// sequences and returns the characters they encode.
#[verifier::external_body]
fn bytes_to_string(bytes: Vec<u8>) -> (r: Option<String>)
    ensures
        (match r {
            Some(s) => valid_utf8(bytes@) && s@ == decode_utf8(bytes@),
            None => !valid_utf8(bytes@),
        }),
{
    String::from_utf8(bytes).ok()
}

/// A sealed secret: ciphertext bytes together with the fresh nonce that
/// sealed them. Opaque to every component but the cipher that made it.
pub struct EncryptedData {
    pub content: Vec<u8>,
    pub nonce: [u8; 12],
}

impl EncryptedData {
    pub fn new(content: Vec<u8>, nonce: [u8; 12]) -> (r: Self)
        ensures
            r.content == content,
            r.nonce == nonce,
    {
        EncryptedData { content, nonce }
    }
}

/// Authenticated encryption and decryption of secret payloads under a key
/// named by the abstract `key` view.
///
/// Decryption inverts encryption: for every plaintext `p`, a ciphertext that
/// is the sealing of `p` under the cipher's key and the carried nonce
/// decrypts to exactly `p`; anything else fails closed with
/// `Error::AuthenticationFailure`, never with partial or garbage plaintext.
pub trait Encrypter {
    /// The symmetric key this cipher seals with.
    spec fn key(&self) -> Seq<u8>;

    fn encrypt(&self, data: String) -> (r: Result<EncryptedData, Error>)
        ensures
            r matches Ok(e) ==> e.content@ == seal(self.key(), e.nonce@, encode_utf8(data@)),
            r matches Ok(e) ==> e.content@.len() == encode_utf8(data@).len() + 16,
            encode_utf8(data@).len() <= 0x10_0000_0000 ==> r is Ok,
            r matches Err(e) ==> e == Error::AuthenticationFailure,
    ;

    fn decrypt(&self, encrypted_data: EncryptedData) -> (r: Result<String, Error>)
        ensures
            r matches Ok(s) ==> encrypted_data.content@ == seal(
                self.key(),
                encrypted_data.nonce@,
                encode_utf8(s@),
            ),
            forall|p: Seq<char>|
                encrypted_data.content@ == seal(self.key(), encrypted_data.nonce@, encode_utf8(p))
                    ==> (r matches Ok(s) && s@ == p),
            r matches Err(e) ==> e == Error::AuthenticationFailure,
    ;
}

/// The production cipher: AES-256-GCM under a key derived once from the
/// master password and the account salt. The key lives only in memory, for
/// the lifetime of this value.
pub struct AesGcmEncrypter {
    key: [u8; 32],
}

impl AesGcmEncrypter {
    /// Derives the sealing key from the master password and the 32-byte
    /// account salt. Deterministic: the same inputs always yield a cipher
    /// with the same key. Derivation fails only on an internal fault of the
    /// key-derivation function, never because of the password's content: for
    /// any password of at most `u32::MAX` bytes it succeeds.
    pub fn build(plain_password: String, salt: &[u8; 32]) -> (r: Result<Self, Error>)
        ensures
            r matches Ok(enc) ==> enc.key() == kdf_key(plain_password@, salt@),
            r matches Err(e) ==> e == Error::KeyDerivation,
            encode_utf8(plain_password@).len() <= 0xFFFF_FFFF ==> r is Ok,
    {
        match derive_key(&plain_password, salt) {
            Ok(key) => Ok(AesGcmEncrypter { key }),
            Err(e) => Err(e),
        }
    }
}

impl Encrypter for AesGcmEncrypter {
    closed spec fn key(&self) -> Seq<u8> {
        self.key@
    }

    fn encrypt(&self, data: String) -> (r: Result<EncryptedData, Error>) {
        let nonce = generate_nonce();
        let text: &str = &data;
        match aead_seal(&self.key, &nonce, text.as_bytes()) {
            Ok(content) => Ok(EncryptedData::new(content, nonce)),
            Err(e) => Err(e),
        }
    }

    fn decrypt(&self, encrypted_data: EncryptedData) -> (r: Result<String, Error>) {
        let opened = aead_open(
            &self.key,
            &encrypted_data.nonce,
            encrypted_data.content.as_slice(),
        );
        match opened {
            Some(plain_bytes) => {
                let ghost pb = plain_bytes@;
                match bytes_to_string(plain_bytes) {
                    Some(text) => {
                        proof {
                            vstd::utf8::decode_utf8_encode_utf8(pb);
                            assert forall|p: Seq<char>|
                                encrypted_data.content@ == seal(
                                    self.key(),
                                    encrypted_data.nonce@,
                                    encode_utf8(p),
                                ) implies text@ == p by {
                                vstd::utf8::encode_utf8_decode_utf8(p);
                                assert(encode_utf8(p) == pb);
                            }
                        }
                        Ok(text)
                    },
                    None => {
                        proof {
                            assert forall|p: Seq<char>|
                                encrypted_data.content@ != seal(
                                    self.key(),
                                    encrypted_data.nonce@,
                                    encode_utf8(p),
                                ) by {
                                if encrypted_data.content@ == seal(
                                    self.key(),
                                    encrypted_data.nonce@,
                                    encode_utf8(p),
                                ) {
                                    vstd::utf8::encode_utf8_valid_utf8(p);
                                    assert(encode_utf8(p) == pb);
                                }
                            }
                        }
                        Err(Error::AuthenticationFailure)
                    },
                }
            },
            None => Err(Error::AuthenticationFailure),
        }
    }
}

} // verus!
