use vstd::prelude::*;

verus! {

/// The error taxonomy of the credential and secret core.
///
/// All cryptographic failures fail closed: no plaintext, key material or
/// partial result is ever returned alongside an error.
#[derive(Clone, Copy, Debug, PartialEq, Eq, Structural)]
pub enum Error {
    /// A stored credential hash could not be produced (internal hashing fault).
    Hashing,
    /// The key-derivation function failed internally.
    KeyDerivation,
    /// Password mismatch, AEAD tag mismatch, or an unknown or revoked session
    /// token. Deliberately a single undifferentiated kind, so that callers
    /// cannot tell the causes apart.
    AuthenticationFailure,
    /// A duplicate username was presented on registration.
    Conflict,
    /// An opaque failure of the persistence layer, such as a duplicate
    /// record identifier.
    Store,
}

} // verus!
