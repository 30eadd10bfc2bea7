use vault_core::{AesGcmEncrypter, EncryptedData, Encrypter, Error};

#[test]
fn encryption_decryption() {
    let salt = [0u8; 32];
    let encrypter = AesGcmEncrypter::build("my_master_password".to_string(), &salt).unwrap();
    let plain_password = "my_password".to_string();
    let encrypted_data = encrypter.encrypt(plain_password.clone()).unwrap();
    let decrypted_password = encrypter.decrypt(encrypted_data).unwrap();
    println!("{}", decrypted_password);

    assert_eq!(plain_password, decrypted_password);
}

#[test]
fn decrypt_rejects_tampered_ciphertext() {
    let salt = [7u8; 32];
    let encrypter = AesGcmEncrypter::build("master".to_string(), &salt).unwrap();
    let sealed = encrypter.encrypt("attack at dawn".to_string()).unwrap();
    let mut content = sealed.content.clone();
    content[0] ^= 0x01;
    let tampered = EncryptedData::new(content, sealed.nonce);
    assert!(matches!(
        encrypter.decrypt(tampered),
        Err(Error::AuthenticationFailure)
    ));
}

#[test]
fn decrypt_rejects_flipped_nonce_bit() {
    let salt = [7u8; 32];
    let encrypter = AesGcmEncrypter::build("master".to_string(), &salt).unwrap();
    let sealed = encrypter.encrypt("attack at dawn".to_string()).unwrap();
    let mut nonce = sealed.nonce;
    nonce[3] ^= 0x80;
    let tampered = EncryptedData::new(sealed.content, nonce);
    assert!(matches!(
        encrypter.decrypt(tampered),
        Err(Error::AuthenticationFailure)
    ));
}

#[test]
fn decrypt_rejects_wrong_key() {
    let salt = [7u8; 32];
    let encrypter = AesGcmEncrypter::build("master".to_string(), &salt).unwrap();
    let other = AesGcmEncrypter::build("not the master".to_string(), &salt).unwrap();
    let sealed = encrypter.encrypt("attack at dawn".to_string()).unwrap();
    assert!(matches!(
        other.decrypt(sealed),
        Err(Error::AuthenticationFailure)
    ));
}

#[test]
fn encrypt_uses_fresh_nonces() {
    let salt = [1u8; 32];
    let encrypter = AesGcmEncrypter::build("master".to_string(), &salt).unwrap();
    let first = encrypter.encrypt("same plaintext".to_string()).unwrap();
    let second = encrypter.encrypt("same plaintext".to_string()).unwrap();
    assert_ne!(first.nonce, second.nonce);
    assert_ne!(first.content, second.content);
}

#[test]
fn ciphertext_is_not_plaintext() {
    let salt = [1u8; 32];
    let encrypter = AesGcmEncrypter::build("master".to_string(), &salt).unwrap();
    let sealed = encrypter.encrypt("hello".to_string()).unwrap();
    assert_eq!(sealed.content.len(), "hello".len() + 16);
    assert_ne!(&sealed.content[..5], "hello".as_bytes());
}

#[test]
fn derive_encrypt_decrypt_scenario() {
    let zero_salt = [0u8; 32];
    let key = AesGcmEncrypter::build("correct-password".to_string(), &zero_salt).unwrap();
    let sealed = key.encrypt("hello".to_string()).unwrap();
    let nonce = sealed.nonce;
    let content = sealed.content.clone();
    let opened = key.decrypt(EncryptedData::new(content.clone(), nonce)).unwrap();
    assert_eq!(opened, "hello");

    let other_salt = [0xFFu8; 32];
    let other_key = AesGcmEncrypter::build("correct-password".to_string(), &other_salt).unwrap();
    assert!(matches!(
        other_key.decrypt(EncryptedData::new(content, nonce)),
        Err(Error::AuthenticationFailure)
    ));
}
