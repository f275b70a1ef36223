use ockam_node_core::error::Error;
use ockam_node_core::vault::{
    SecretAttributes, SecretKey, SecretPersistence, SecretType, SoftwareVault, VaultEntry,
};

#[test]
fn new_vault() {
    let vault = SoftwareVault::new();
    assert_eq!(vault.next_id, 0);
    assert_eq!(vault.entries.len(), 0);
}

fn aes_entry(len: usize) -> VaultEntry {
    VaultEntry::new(
        None,
        SecretAttributes::new(SecretType::Aes, SecretPersistence::Ephemeral, len),
        SecretKey::new(vec![7u8; len]),
    )
}

#[test]
fn insert_gives_increasing_indices() {
    let mut vault = SoftwareVault::new();
    let a = vault.insert(aes_entry(16)).unwrap();
    let b = vault.insert(aes_entry(32)).unwrap();
    assert_eq!(a.index(), 1);
    assert_eq!(b.index(), 2);
    assert_eq!(vault.next_id, 2);
    assert!(vault.remove(a).is_some());
    assert!(vault.get_entry(&a).is_err());
    assert_eq!(vault.get_entry(&b).unwrap().key_attributes().length(), 32);
}

#[test]
fn aes128_round_trip_changes_bytes() {
    let mut vault = SoftwareVault::new();
    let key = vault.insert(aes_entry(16)).unwrap();
    let nonce = [0u8; 12];
    let plain = b"hello secure world".to_vec();
    let sealed = vault.aead_aes_gcm_encrypt_sync(&key, &plain, &nonce, b"aad").unwrap();
    assert_eq!(sealed.len(), plain.len() + 16);
    assert_ne!(&sealed[..plain.len()], &plain[..]);
    let opened = vault.aead_aes_gcm_decrypt_sync(&key, &sealed, &nonce, b"aad").unwrap();
    assert_eq!(opened, plain);
    assert_eq!(
        vault.aead_aes_gcm_decrypt_sync(&key, &sealed, &nonce, b"other"),
        Err(Error::AeadAesGcmDecrypt)
    );
}

#[test]
fn aes256_round_trip_changes_bytes() {
    let mut vault = SoftwareVault::new();
    let key = vault.insert(aes_entry(32)).unwrap();
    let nonce = [1u8; 12];
    let plain = vec![0u8; 40];
    let sealed = vault.aead_aes_gcm_encrypt_sync(&key, &plain, &nonce, &[]).unwrap();
    assert_eq!(sealed.len(), 56);
    assert_ne!(&sealed[..40], &plain[..]);
    assert_eq!(vault.aead_aes_gcm_decrypt_sync(&key, &sealed, &nonce, &[]).unwrap(), plain);
}

#[test]
fn aes_refuses_wrong_key_kind_and_nonce() {
    let mut vault = SoftwareVault::new();
    let bad = vault
        .insert(VaultEntry::new(
            None,
            SecretAttributes::new(SecretType::X25519, SecretPersistence::Ephemeral, 32),
            SecretKey::new(vec![1u8; 32]),
        ))
        .unwrap();
    assert_eq!(
        vault.aead_aes_gcm_encrypt_sync(&bad, b"x", &[0u8; 12], &[]),
        Err(Error::AeadAesGcmEncrypt)
    );
    let good = vault.insert(aes_entry(16)).unwrap();
    assert_eq!(
        vault.aead_aes_gcm_encrypt_sync(&good, b"x", &[0u8; 11], &[]),
        Err(Error::AeadAesGcmEncrypt)
    );
    let missing = ockam_node_core::vault::Secret::new(99);
    assert_eq!(
        vault.aead_aes_gcm_encrypt_sync(&missing, b"x", &[0u8; 12], &[]),
        Err(Error::EntryNotFound)
    );
}
