use vault_core::{create_salt, create_session_id, create_uuid_v4, Error, SessionStore};

#[test]
fn issue_authenticate_revoke() {
    let mut sessions = SessionStore::new();
    let token = sessions.issue(42);
    assert_eq!(sessions.authenticate(&token).unwrap(), 42);
    sessions.revoke(&token);
    assert!(matches!(
        sessions.authenticate(&token),
        Err(Error::AuthenticationFailure)
    ));
}

#[test]
fn revoke_is_idempotent() {
    let mut sessions = SessionStore::new();
    let token = sessions.issue(1);
    sessions.revoke(&token);
    sessions.revoke(&token);
    assert!(sessions.authenticate(&token).is_err());
    sessions.revoke(&"never issued".to_string());
}

#[test]
fn tokens_are_independent() {
    let mut sessions = SessionStore::new();
    let token_a = sessions.issue(1);
    let token_b = sessions.issue(2);
    let token_c = sessions.issue(1);
    assert_ne!(token_a, token_b);
    assert_ne!(token_a, token_c);
    sessions.revoke(&token_a);
    assert!(sessions.authenticate(&token_a).is_err());
    assert_eq!(sessions.authenticate(&token_b).unwrap(), 2);
    assert_eq!(sessions.authenticate(&token_c).unwrap(), 1);
}

#[test]
fn unknown_token_fails() {
    let sessions = SessionStore::new();
    assert!(matches!(
        sessions.authenticate(&"anything".to_string()),
        Err(Error::AuthenticationFailure)
    ));
}

#[test]
fn session_ids_are_fresh_alphanumeric() {
    let first = create_session_id();
    let second = create_session_id();
    assert_eq!(first.chars().count(), 43);
    assert!(first.chars().all(|c| c.is_ascii_alphanumeric()));
    assert_ne!(first, second);
}

#[test]
fn random_values_are_fresh() {
    assert_ne!(create_salt(), create_salt());
    assert_ne!(create_uuid_v4(), create_uuid_v4());
}

#[test]
fn uuids_carry_version_and_variant_bits() {
    let id = create_uuid_v4();
    assert_eq!((id >> 76) & 0xf, 4);
    assert_eq!((id >> 62) & 0x3, 2);
}
