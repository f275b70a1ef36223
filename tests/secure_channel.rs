use ockam_node_core::error::Error;
use ockam_node_core::secure_channel::{
    handshake_step, CloseReason, Decryptor, Encryptor, HandshakeAction, HandshakeEvent,
    HandshakeRole, HandshakeState, IdentityIdentifier, IdentitySecureChannelLocalInfo,
    SecureChannelLocalInfo, IDENTITY_SECURE_CHANNEL_IDENTIFIER, SECURE_CHANNEL_IDENTIFIER,
};
use ockam_node_core::vault::{SecretAttributes, SecretKey, SecretPersistence, SecretType, SoftwareVault, VaultEntry};
use ockam_node_core::{Address, LocalInfo, LocalMessage, Route, TransportMessage};

fn aes_vault() -> (SoftwareVault, ockam_node_core::vault::Secret) {
    let mut vault = SoftwareVault::new();
    let key = vault
        .insert(VaultEntry::new(
            None,
            SecretAttributes::new(SecretType::Aes, SecretPersistence::Ephemeral, 32),
            SecretKey::new(vec![42u8; 32]),
        ))
        .unwrap();
    (vault, key)
}

#[test]
fn secure_channel_stamping() {
    let (vault, key) = aes_vault();
    let mut enc = Encryptor::new(key);
    let mut dec = Decryptor::new(key, IdentityIdentifier::new("I_A".to_string()));
    dec.set_ready();
    let msg = TransportMessage::v1(
        Route::single(Address::local(b"app")),
        Route::single(Address::local(b"a")),
        b"ping".to_vec(),
    );
    let sealed = enc.encrypt(&vault, &msg).unwrap();
    assert_eq!(&sealed[..8], &[0, 0, 0, 0, 0, 0, 0, 0]);
    let lm = dec.decrypt(&vault, &sealed).unwrap();
    assert_eq!(lm.transport(), &msg);
    assert_eq!(lm.local_info().len(), 1);
    assert_eq!(lm.local_info()[0].type_identifier(), IDENTITY_SECURE_CHANNEL_IDENTIFIER);
    let stamp = IdentitySecureChannelLocalInfo::find_info(&lm).unwrap();
    assert_eq!(stamp.their_identity_id().as_str(), "I_A");
    assert_eq!(dec.decrypt(&vault, &sealed).err(), Some(Error::Replay));
}

#[test]
fn nonces_increase() {
    let (vault, key) = aes_vault();
    let mut enc = Encryptor::new(key);
    let msg = TransportMessage::v1(Route::new(), Route::new(), vec![]);
    let first = enc.encrypt(&vault, &msg).unwrap();
    let second = enc.encrypt(&vault, &msg).unwrap();
    assert_eq!(first[7], 0);
    assert_eq!(second[7], 1);
    assert_ne!(first[8..], second[8..]);
    assert_eq!(enc.nonce, 2);
    let mut dec = Decryptor::new(key, IdentityIdentifier::new("peer".to_string()));
    assert_eq!(dec.decrypt(&vault, &first).err(), Some(Error::ChannelNotReady));
    dec.set_ready();
    dec.decrypt(&vault, &second).unwrap();
    assert_eq!(dec.decrypt(&vault, &first).err(), Some(Error::Replay));
    let mut exhausted = Encryptor::new(key);
    exhausted.nonce = u64::MAX;
    assert_eq!(exhausted.encrypt(&vault, &msg).err(), Some(Error::NonceExhausted));
}

#[test]
fn tampered_ciphertext_is_rejected() {
    let (vault, key) = aes_vault();
    let mut enc = Encryptor::new(key);
    let mut dec = Decryptor::new(key, IdentityIdentifier::new("peer".to_string()));
    dec.set_ready();
    let msg = TransportMessage::v1(Route::new(), Route::new(), b"x".to_vec());
    let mut sealed = enc.encrypt(&vault, &msg).unwrap();
    let last = sealed.len() - 1;
    sealed[last] ^= 1;
    assert_eq!(dec.decrypt(&vault, &sealed).err(), Some(Error::AeadAesGcmDecrypt));
    assert_eq!(dec.last_nonce, None);
}

#[test]
fn local_info_round_trip() {
    let info = SecureChannelLocalInfo::new("X25519".to_string());
    let li = info.to_local_info().unwrap();
    assert_eq!(li.type_identifier(), SECURE_CHANNEL_IDENTIFIER);
    assert_eq!(SecureChannelLocalInfo::from_local_info(&li).unwrap().key_exchange(), "X25519");
    let wrong = LocalInfo::new("OTHER".to_string(), li.data().to_vec());
    assert_eq!(SecureChannelLocalInfo::from_local_info(&wrong).err(), Some(Error::InvalidLocalInfoType));
    let lm = LocalMessage::new(TransportMessage::v1(Route::new(), Route::new(), vec![]), vec![wrong, li]);
    assert_eq!(SecureChannelLocalInfo::find_info(&lm).unwrap().key_exchange(), "X25519");
    assert!(IdentitySecureChannelLocalInfo::find_info(&lm).is_err());
}

#[test]
fn handshake_reaches_ready_on_both_sides() {
    let (s, a) = handshake_step(HandshakeRole::Initiator, HandshakeState::Idle, HandshakeEvent::Start);
    assert_eq!((s, a), (HandshakeState::AwaitKeyExchange2, HandshakeAction::SendExchange1));
    let (r, _) = handshake_step(HandshakeRole::Responder, HandshakeState::Idle, HandshakeEvent::Start);
    assert_eq!(r, HandshakeState::AwaitKeyExchange1);
    let (r, a) = handshake_step(HandshakeRole::Responder, r, HandshakeEvent::Exchange1);
    assert_eq!((r, a), (HandshakeState::AwaitIdentityProof, HandshakeAction::SendExchange2));
    let (s, a) = handshake_step(HandshakeRole::Initiator, s, HandshakeEvent::Exchange2);
    assert_eq!((s, a), (HandshakeState::AwaitIdentityProof, HandshakeAction::SendIdentityProof));
    let (r, a) = handshake_step(HandshakeRole::Responder, r, HandshakeEvent::IdentityProof { valid: true });
    assert_eq!((r, a), (HandshakeState::Ready, HandshakeAction::SendIdentityProofAndConfirm));
    let (s, a) = handshake_step(HandshakeRole::Initiator, s, HandshakeEvent::IdentityProof { valid: true });
    assert_eq!((s, a), (HandshakeState::Ready, HandshakeAction::SendConfirm));
    assert_eq!(handshake_step(HandshakeRole::Initiator, s, HandshakeEvent::Confirm).0, HandshakeState::Ready);
}

#[test]
fn handshake_failures_close() {
    let t = handshake_step(HandshakeRole::Initiator, HandshakeState::AwaitKeyExchange2, HandshakeEvent::Timeout);
    assert_eq!(t, (HandshakeState::Closed(CloseReason::HandshakeTimeout), HandshakeAction::Close(CloseReason::HandshakeTimeout)));
    let f = handshake_step(HandshakeRole::Responder, HandshakeState::AwaitIdentityProof, HandshakeEvent::IdentityProof { valid: false });
    assert_eq!(f.0, HandshakeState::Closed(CloseReason::HandshakeFailed));
    let d = handshake_step(HandshakeRole::Responder, HandshakeState::AwaitKeyExchange1, HandshakeEvent::DecodeFailed);
    assert_eq!(d.0, HandshakeState::Closed(CloseReason::HandshakeFailed));
}
