use room_authz::crypto::{
    decrypt_message, encrypt_message, CryptoError, PQCryptoManager, CIPHERTEXT_LENGTH, SIGNATURE_LENGTH,
};

fn with_keys() -> PQCryptoManager {
    let mut manager = PQCryptoManager::new();
    manager.generate_kyber_keypair();
    manager.generate_dilithium_keypair();
    manager
}

#[test]
fn a_new_manager_has_no_keys() {
    let manager = PQCryptoManager::new();
    assert!(manager.get_kyber_public_key().is_none());
    assert!(manager.get_dilithium_public_key().is_none());
    assert!(manager.sign(b"hello").is_none());
    assert!(manager.decapsulate(&[0u8; CIPHERTEXT_LENGTH]).is_none());
}

#[test]
fn generating_one_key_pair_leaves_the_other_alone() {
    let mut manager = PQCryptoManager::new();
    manager.generate_kyber_keypair();
    assert!(manager.get_kyber_public_key().is_some());
    assert!(manager.get_dilithium_public_key().is_none());
    manager.generate_dilithium_keypair();
    assert!(manager.get_kyber_public_key().is_some());
    assert!(manager.get_dilithium_public_key().is_some());
}

#[test]
fn encapsulation_and_decapsulation_agree() {
    let alice = with_keys();
    let bob = with_keys();
    let (ciphertext, secret) = alice.encapsulate(bob.get_kyber_public_key().unwrap());
    assert_eq!(ciphertext.len(), CIPHERTEXT_LENGTH);
    let opened = bob.decapsulate(&ciphertext).unwrap();
    assert!(opened == secret);
}

#[test]
fn decapsulation_refuses_other_lengths() {
    let bob = with_keys();
    assert!(bob.decapsulate(&[]).is_none());
    assert!(bob.decapsulate(&[0u8; CIPHERTEXT_LENGTH - 1]).is_none());
    assert!(bob.decapsulate(&[0u8; CIPHERTEXT_LENGTH + 1]).is_none());
    assert!(bob.decapsulate(&[0u8; CIPHERTEXT_LENGTH]).is_some());
}

#[test]
fn a_signature_verifies_under_its_own_key_only() {
    let alice = with_keys();
    let bob = with_keys();
    let signature = alice.sign(b"hello").unwrap();
    assert_eq!(signature.len(), SIGNATURE_LENGTH);
    assert!(bob.verify(b"hello", &signature, alice.get_dilithium_public_key().unwrap()));
    assert!(!bob.verify(b"hullo", &signature, alice.get_dilithium_public_key().unwrap()));
    assert!(!bob.verify(b"hello", &signature, bob.get_dilithium_public_key().unwrap()));
}

#[test]
fn overlong_or_short_signatures_never_verify() {
    let alice = with_keys();
    let key = alice.get_dilithium_public_key().unwrap();
    assert!(!alice.verify(b"hello", &[0u8; SIGNATURE_LENGTH + 1], key));
    assert!(!alice.verify(b"hello", &[], key));
    let mut signature = alice.sign(b"hello").unwrap();
    signature.pop();
    assert!(!alice.verify(b"hello", &signature, key));
}

#[test]
fn a_sealed_message_is_the_message_and_its_signature() {
    let alice = with_keys();
    let sealed = encrypt_message(&alice, b"hello world").unwrap();
    assert_eq!(sealed.len(), 11 + SIGNATURE_LENGTH);
    assert_eq!(&sealed[..11], b"hello world");
    assert!(alice.verify(b"hello world", &sealed[11..], alice.get_dilithium_public_key().unwrap()));
}

#[test]
fn sealing_needs_a_signing_key() {
    let mut manager = PQCryptoManager::new();
    assert_eq!(encrypt_message(&manager, b"hello"), Err(CryptoError::SigningFailed));
    manager.generate_kyber_keypair();
    assert_eq!(encrypt_message(&manager, b"hello"), Err(CryptoError::SigningFailed));
}

#[test]
fn opening_returns_the_message_of_a_valid_seal() {
    let alice = with_keys();
    let bob = with_keys();
    let sealed = encrypt_message(&alice, b"hello world").unwrap();
    let key = alice.get_dilithium_public_key().unwrap();
    assert_eq!(decrypt_message(&bob, &sealed, key), Ok(b"hello world".to_vec()));

    let empty = encrypt_message(&alice, b"").unwrap();
    assert_eq!(decrypt_message(&bob, &empty, key), Ok(Vec::new()));
}

#[test]
fn opening_refuses_a_broken_seal() {
    let alice = with_keys();
    let bob = with_keys();
    let mut sealed = encrypt_message(&alice, b"hello world").unwrap();
    sealed[0] ^= 1;
    assert_eq!(
        decrypt_message(&bob, &sealed, alice.get_dilithium_public_key().unwrap()),
        Err(CryptoError::InvalidSignature)
    );
    let sealed = encrypt_message(&alice, b"hello world").unwrap();
    assert_eq!(
        decrypt_message(&bob, &sealed, bob.get_dilithium_public_key().unwrap()),
        Err(CryptoError::InvalidSignature)
    );
}
