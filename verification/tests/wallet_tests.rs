use ad4m_executor::wallet::{decrypt, encrypt, slice_to_u8_array, Key, Keys, Wallet};

#[test]
fn test_encrypt_decrypt_multiple() {
    let passphrase = "test".to_string();
    let payload = "test".to_string();
    let encrypted = encrypt(payload.clone(), passphrase.clone()).expect("encryption to work");
    println!("Got encrypted: {}", encrypted);
    let decrypted = decrypt(encrypted, passphrase);
    println!("Got decrypted: {:?}", decrypted);
    assert_eq!(payload, decrypted.unwrap());

    let passphrase = "test".to_string();
    let payload = "test".to_string();
    let encrypted = encrypt(payload.clone(), passphrase.clone()).expect("encryption to work");
    println!("Got encrypted: {}", encrypted);
    let decrypted = decrypt(encrypted, passphrase);
    println!("Got decrypted: {:?}", decrypted);
    assert_eq!(payload, decrypted.unwrap());
}

#[test]
fn encrypt_changes_the_payload() {
    let encrypted = encrypt("attack at dawn".to_string(), "passphrase".to_string())
        .expect("encryption to work");
    assert_ne!(encrypted, "attack at dawn");
    assert!(!encrypted.is_empty());
}

#[test]
fn encrypt_is_deterministic_under_fixed_nonce() {
    let a = encrypt("same payload".to_string(), "same pass".to_string()).unwrap();
    let b = encrypt("same payload".to_string(), "same pass".to_string()).unwrap();
    assert_eq!(a, b);
}

#[test]
fn decrypt_of_garbage_fails() {
    assert!(decrypt("!!!not base64!!!".to_string(), "pass".to_string()).is_none());
}

#[test]
fn slice_padding_and_truncation() {
    let short = slice_to_u8_array(&[1u8, 2, 3]);
    assert_eq!(short[0], 1);
    assert_eq!(short[2], 3);
    assert_eq!(short[3], 0);
    assert_eq!(short[31], 0);

    let long: Vec<u8> = (0u8..40).collect();
    let cut = slice_to_u8_array(&long);
    assert_eq!(cut[0], 0);
    assert_eq!(cut[31], 31);
}

#[test]
fn wallet_starts_locked_and_empty() {
    let wallet = Wallet::new();
    assert!(!wallet.is_unlocked());
    assert!(wallet.get_public_key("main".to_string()).is_none());
    assert!(wallet.get_secret_key("main".to_string()).is_none());
}

#[test]
fn wallet_stores_generated_keypair() {
    let mut wallet = Wallet::new();
    wallet.generate_keypair(
        "main".to_string(),
        Key { secret: vec![9u8; 32], public: vec![7u8; 32] },
    );
    assert!(wallet.is_unlocked());
    assert_eq!(wallet.get_public_key("main".to_string()).unwrap(), vec![7u8; 32]);
    assert_eq!(wallet.get_secret_key("main".to_string()).unwrap(), vec![9u8; 32]);
    assert!(wallet.get_public_key("other".to_string()).is_none());
}

#[test]
fn wallet_load_replaces_cipher() {
    let mut wallet = Wallet::new();
    wallet.load("some exported blob".to_string());
    assert_eq!(wallet.cipher.as_deref(), Some("some exported blob"));
    assert!(!wallet.is_unlocked());
}

#[test]
fn keys_start_empty() {
    let keys = Keys::new();
    assert_eq!(keys.by_name.len(), 0);
}

#[test]
fn wallet_lock_unlock_round_trip() {
    let mut wallet = Wallet::new();
    // key material with embedded zero bytes, to exercise the framing
    wallet.generate_keypair(
        "main".to_string(),
        Key { secret: vec![0, 1, 2, 0, 255, 0], public: vec![9, 0, 9] },
    );
    wallet.generate_keypair(
        "backup".to_string(),
        Key { secret: vec![4u8; 32], public: vec![5u8; 32] },
    );
    wallet.lock("hunter2".to_string());
    assert!(!wallet.is_unlocked());
    assert!(wallet.get_secret_key("main".to_string()).is_none());
    wallet.unlock("hunter2".to_string()).expect("unlocking to restore the keys");
    assert!(wallet.is_unlocked());
    assert_eq!(
        wallet.get_secret_key("main".to_string()).unwrap(),
        vec![0, 1, 2, 0, 255, 0],
    );
    assert_eq!(wallet.get_public_key("main".to_string()).unwrap(), vec![9, 0, 9]);
    assert_eq!(wallet.get_public_key("backup".to_string()).unwrap(), vec![5u8; 32]);
}

#[test]
fn wallet_export_then_load_elsewhere() {
    let mut wallet = Wallet::new();
    wallet.generate_keypair(
        "main".to_string(),
        Key { secret: vec![1u8; 32], public: vec![2u8; 32] },
    );
    let exported = wallet.export("passphrase".to_string());
    assert!(!exported.is_empty());
    // exporting keeps the keys in the clear
    assert!(wallet.is_unlocked());

    let mut other = Wallet::new();
    other.load(exported);
    other.unlock("passphrase".to_string()).expect("the exported blob to unlock");
    assert_eq!(other.get_public_key("main".to_string()).unwrap(), vec![2u8; 32]);
}

#[test]
fn wallet_unlock_of_garbage_is_malformed() {
    let mut wallet = Wallet::new();
    wallet.load(encrypt("not a keystore".to_string(), "p".to_string()).unwrap());
    assert_eq!(
        wallet.unlock("p".to_string()).unwrap_err(),
        ad4m_executor::wallet::WalletError::MalformedKeystore,
    );
    assert!(!wallet.is_unlocked());
}

#[test]
fn wallet_unlock_of_undecryptable_cipher_fails() {
    let mut wallet = Wallet::new();
    wallet.load("###".to_string());
    assert_eq!(
        wallet.unlock("p".to_string()).unwrap_err(),
        ad4m_executor::wallet::WalletError::DecryptionFailed,
    );
}
