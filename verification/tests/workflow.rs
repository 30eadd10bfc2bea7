use vault_core::{
    login_user, logout_user, register_user, Argon2Hasher, Error, SessionStore, UserIn, UserStore,
};

#[test]
fn register_is_case_insensitively_unique() {
    let mut db = UserStore::new();
    let hasher = Argon2Hasher::new();
    let first = UserIn { username: "Alice".to_string(), password: "pw-one".to_string() };
    assert!(register_user(&mut db, &hasher, &first).is_ok());
    let second = UserIn { username: "alice".to_string(), password: "pw-two".to_string() };
    assert!(matches!(
        register_user(&mut db, &hasher, &second),
        Err(Error::Conflict)
    ));
}

#[test]
fn login_logout_scenario() {
    let mut db = UserStore::new();
    let mut sessions = SessionStore::new();
    let hasher = Argon2Hasher::new();
    let creds = UserIn { username: "Bob".to_string(), password: "correct horse".to_string() };
    register_user(&mut db, &hasher, &creds).unwrap();

    let login = login_user(&mut db, &mut sessions, &hasher, &creds).unwrap();
    assert_eq!(login.user.username, "bob");
    let user_id = login.user.user_id;
    assert_eq!(sessions.authenticate(&login.session_id).unwrap(), user_id);

    logout_user(&mut sessions, &login.session_id);
    assert!(matches!(
        sessions.authenticate(&login.session_id),
        Err(Error::AuthenticationFailure)
    ));
}

#[test]
fn login_normalizes_username() {
    let mut db = UserStore::new();
    let mut sessions = SessionStore::new();
    let hasher = Argon2Hasher::new();
    let creds = UserIn { username: "Carol".to_string(), password: "s3cret".to_string() };
    register_user(&mut db, &hasher, &creds).unwrap();
    let shouting = UserIn { username: "CAROL".to_string(), password: "s3cret".to_string() };
    assert!(login_user(&mut db, &mut sessions, &hasher, &shouting).is_ok());
}

#[test]
fn login_failure_is_undifferentiated() {
    let mut db = UserStore::new();
    let mut sessions = SessionStore::new();
    let hasher = Argon2Hasher::new();
    let creds = UserIn { username: "dave".to_string(), password: "right".to_string() };
    register_user(&mut db, &hasher, &creds).unwrap();

    let wrong_password = UserIn { username: "dave".to_string(), password: "wrong".to_string() };
    assert!(matches!(
        login_user(&mut db, &mut sessions, &hasher, &wrong_password),
        Err(Error::AuthenticationFailure)
    ));
    let unknown_user = UserIn { username: "mallory".to_string(), password: "right".to_string() };
    assert!(matches!(
        login_user(&mut db, &mut sessions, &hasher, &unknown_user),
        Err(Error::AuthenticationFailure)
    ));
}

#[test]
fn login_returns_salt_for_key_derivation() {
    let mut db = UserStore::new();
    let mut sessions = SessionStore::new();
    let hasher = Argon2Hasher::new();
    let creds = UserIn { username: "erin".to_string(), password: "pass".to_string() };
    register_user(&mut db, &hasher, &creds).unwrap();
    let first = login_user(&mut db, &mut sessions, &hasher, &creds).unwrap();
    let second = login_user(&mut db, &mut sessions, &hasher, &creds).unwrap();
    assert_eq!(first.user.salt, second.user.salt);
    assert_eq!(first.user.user_id, second.user.user_id);
    assert_ne!(first.session_id, second.session_id);
}
