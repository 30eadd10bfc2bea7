//! Credential- and secret-protection core of a password-manager service.
//!
//! The library turns a master password into a verifiable account credential
//! and a reproducible symmetric key that seals per-item secrets at rest, and
//! it manages opaque bearer session tokens. Durable state lives in in-memory
//! stores whose contracts describe every operation; HTTP routing and process
//! glue live outside the library.

mod account;
mod encryption;
mod error;
mod hash;
mod notes;
mod passwords;
mod session;
mod utils;
mod workflow;

pub use account::{
    fresh_user, has_user_id, has_username, lemma_register_then_lookup, lemma_user_with_name,
    lower_of, to_lowercase, user_with_name, username_index, users_wf, with_connected_at, DbUser,
    DbUserView, UserStore,
};
pub use encryption::{kdf_key, seal, AesGcmEncrypter, EncryptedData, Encrypter};
pub use error::Error;
pub use hash::{hash_with_sha3, phc_parses, phc_verifies, sha3_of, Argon2Hasher, Hasher};
pub use notes::{
    has_note, has_note_id, lemma_note_at, note_at, note_index, note_owned_by, note_views_of,
    notes_wf, DbNote, DbNoteView, NoteIn, NoteOut, NoteStore,
};
pub use passwords::{
    has_password, has_password_id, lemma_password_at, owned_by, password_at, password_index,
    passwords_wf, views_of, DbPassword, DbPasswordView, PasswordIn, PasswordOut, PasswordStore,
};
pub use session::{lemma_token_lifecycle, SessionEntry, SessionStore};
pub use utils::{
    bytes_eq, create_salt, create_session_id, create_uuid_v4, get_current_timestamp,
    session_id_char,
};
pub use workflow::{login_user, logout_user, register_user, LoginResponse, UserIn, UserOut};
