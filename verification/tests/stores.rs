use vault_core::{Error, NoteOut, NoteStore, PasswordOut, PasswordStore};

#[test]
fn password_create_get_roundtrip() {
    let mut store = PasswordStore::new();
    let created = store
        .create_password(
            10,
            1,
            &"example.org".to_string(),
            &"alice".to_string(),
            &vec![1, 2, 3],
            &[9u8; 12],
        )
        .unwrap();
    assert_eq!(created.password_id, 10);
    assert_eq!(created.user_id, 1);

    let fetched = store.get_password(1, 10).unwrap();
    assert_eq!(fetched.domain_name, "example.org");
    assert_eq!(fetched.username, "alice");
    assert_eq!(fetched.password, vec![1, 2, 3]);
    assert_eq!(fetched.nonce, [9u8; 12]);

    let out = PasswordOut::from(fetched);
    assert_eq!(out.password_id, 10);
}

#[test]
fn password_duplicate_id_is_store_error() {
    let mut store = PasswordStore::new();
    store
        .create_password(5, 1, &"a.com".to_string(), &"u".to_string(), &vec![0], &[0u8; 12])
        .unwrap();
    assert!(matches!(
        store.create_password(5, 2, &"b.com".to_string(), &"v".to_string(), &vec![1], &[1u8; 12]),
        Err(Error::Store)
    ));
}

#[test]
fn passwords_are_scoped_to_owner() {
    let mut store = PasswordStore::new();
    store
        .create_password(1, 100, &"a.com".to_string(), &"u".to_string(), &vec![1], &[0u8; 12])
        .unwrap();
    store
        .create_password(2, 200, &"b.com".to_string(), &"v".to_string(), &vec![2], &[0u8; 12])
        .unwrap();
    store
        .create_password(3, 100, &"c.com".to_string(), &"w".to_string(), &vec![3], &[0u8; 12])
        .unwrap();

    assert!(store.get_password(200, 1).is_none());
    let mine = store.get_passwords(100);
    assert_eq!(mine.len(), 2);
    assert_eq!(mine[0].password_id, 1);
    assert_eq!(mine[1].password_id, 3);
}

#[test]
fn password_delete_and_patch() {
    let mut store = PasswordStore::new();
    store
        .create_password(1, 7, &"a.com".to_string(), &"u".to_string(), &vec![1], &[0u8; 12])
        .unwrap();

    let patched = store
        .patch_password(1, 7, &"a.org".to_string(), &"u2".to_string(), &vec![4, 5], &[2u8; 12])
        .unwrap();
    assert_eq!(patched.domain_name, "a.org");
    assert_eq!(store.get_password(7, 1).unwrap().username, "u2");

    assert!(matches!(
        store.patch_password(99, 7, &"x".to_string(), &"y".to_string(), &vec![], &[0u8; 12]),
        Err(Error::Store)
    ));
    // deleting under the wrong owner must not remove the entry
    store.delete_password(8, 1);
    assert!(store.get_password(7, 1).is_some());
    store.delete_password(7, 1);
    assert!(store.get_password(7, 1).is_none());
    store.delete_password(7, 1);
}

#[test]
fn note_create_get_roundtrip() {
    let mut store = NoteStore::new();
    let created = store
        .create_note(11, 3, &vec![10, 11], &[1u8; 12], &vec![20, 21, 22], &[2u8; 12])
        .unwrap();
    assert_eq!(created.note_id, 11);

    let fetched = store.get_note(3, 11).unwrap();
    assert_eq!(fetched.title, vec![10, 11]);
    assert_eq!(fetched.title_nonce, [1u8; 12]);
    assert_eq!(fetched.content, vec![20, 21, 22]);
    assert_eq!(fetched.content_nonce, [2u8; 12]);

    let out = NoteOut::from(fetched);
    assert_eq!(out.note_id, 11);
}

#[test]
fn note_listing_delete_and_patch() {
    let mut store = NoteStore::new();
    store.create_note(1, 5, &vec![1], &[0u8; 12], &vec![2], &[0u8; 12]).unwrap();
    store.create_note(2, 6, &vec![3], &[0u8; 12], &vec![4], &[0u8; 12]).unwrap();
    store.create_note(3, 5, &vec![5], &[0u8; 12], &vec![6], &[0u8; 12]).unwrap();
    assert!(matches!(
        store.create_note(3, 5, &vec![0], &[0u8; 12], &vec![0], &[0u8; 12]),
        Err(Error::Store)
    ));

    let mine = store.get_notes(5);
    assert_eq!(mine.len(), 2);
    assert_eq!(mine[0].note_id, 1);
    assert_eq!(mine[1].note_id, 3);
    assert!(store.get_note(6, 1).is_none());

    let patched = store.patch_note(1, 5, &vec![7], &[3u8; 12], &vec![8], &[4u8; 12]).unwrap();
    assert_eq!(patched.title, vec![7]);
    assert!(matches!(
        store.patch_note(2, 5, &vec![], &[0u8; 12], &vec![], &[0u8; 12]),
        Err(Error::Store)
    ));

    store.delete_note(5, 1);
    assert!(store.get_note(5, 1).is_none());
    assert_eq!(store.get_notes(5).len(), 1);
}
