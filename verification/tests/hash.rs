use vault_core::{hash_with_sha3, Argon2Hasher, Hasher};

#[test]
fn argon2_hasher() {
    let argon2 = Argon2Hasher::new();

    let plain_data = "mve53!#*qwp627.[fgm31".to_string();
    let hashed_data = argon2.hash_data(&plain_data).unwrap();
    let result = argon2.cmp_data(&plain_data, &hashed_data).unwrap();
    assert_eq!(result, true);

    let plain_data = "mve53!#*qwp627.[fgm31".to_string();
    let hashed_data = argon2.hash_data(&plain_data).unwrap();
    let result = argon2
        .cmp_data(&"lin354v2v23c@^Y".to_string(), &hashed_data)
        .unwrap();
    assert_eq!(result, false);
}

#[test]
fn hashing_is_salted() {
    let argon2 = Argon2Hasher::new();
    let plain = "same password".to_string();
    let first = argon2.hash_data(&plain).unwrap();
    let second = argon2.hash_data(&plain).unwrap();
    assert_ne!(first, second);
    assert!(argon2.cmp_data(&plain, &first).unwrap());
    assert!(argon2.cmp_data(&plain, &second).unwrap());
}

#[test]
fn hash_is_not_the_password() {
    let argon2 = Argon2Hasher::new();
    let plain = "hunter2".to_string();
    let hashed = argon2.hash_data(&plain).unwrap();
    assert_ne!(hashed, plain);
}

#[test]
fn malformed_hash_verifies_false() {
    let argon2 = Argon2Hasher::new();
    let plain = "whatever".to_string();
    assert_eq!(argon2.cmp_data(&plain, &"not a phc string".to_string()).unwrap(), false);
    assert_eq!(argon2.cmp_data(&plain, &String::new()).unwrap(), false);
}

#[test]
fn sha3_known_digest() {
    let digest = hash_with_sha3(&"abc".to_string());
    let expected: [u8; 32] = [
        0x3a, 0x98, 0x5d, 0xa7, 0x4f, 0xe2, 0x25, 0xb2, 0x04, 0x5c, 0x17, 0x2d, 0x6b, 0xd3, 0x90,
        0xbd, 0x85, 0x5f, 0x08, 0x6e, 0x3e, 0x9d, 0x52, 0x5b, 0x46, 0xbf, 0xe2, 0x45, 0x11, 0x43,
        0x15, 0x32,
    ];
    assert_eq!(digest, expected);
}

#[test]
fn sha3_differs_per_input() {
    let first = hash_with_sha3(&"token-a".to_string());
    let second = hash_with_sha3(&"token-b".to_string());
    assert_ne!(first, second);
    assert_eq!(first, hash_with_sha3(&"token-a".to_string()));
}
