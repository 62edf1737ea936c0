//! Post-quantum keys of a server: a Kyber-768 key pair for key encapsulation
//! and a Dilithium3 key pair for signatures.
//!
//! The cryptography is that of the `pqcrypto` crates. Keys and shared secrets
//! pass through this module unread.

use vstd::prelude::*;
use vstd::slice::{slice_subrange, slice_to_vec};
use pqcrypto_dilithium::dilithium3;
use pqcrypto_kyber::kyber768;
use pqcrypto_traits::kem::Ciphertext;
use pqcrypto_traits::sign::DetachedSignature;

verus! {

/// `kyber768::PublicKey` of `pqcrypto-kyber`: carried through, never read.
#[verifier::external_type_specification]
#[verifier::external_body]
pub struct ExKyberPublicKey(kyber768::PublicKey);

/// `kyber768::SecretKey` of `pqcrypto-kyber`: carried through, never read.
#[verifier::external_type_specification]
#[verifier::external_body]
pub struct ExKyberSecretKey(kyber768::SecretKey);

/// `kyber768::SharedSecret` of `pqcrypto-kyber`: carried through, never
/// read.
#[verifier::external_type_specification]
#[verifier::external_body]
pub struct ExKyberSharedSecret(kyber768::SharedSecret);

/// `dilithium3::PublicKey` of `pqcrypto-dilithium`: carried through, never
/// read.
#[verifier::external_type_specification]
#[verifier::external_body]
pub struct ExDilithiumPublicKey(dilithium3::PublicKey);

/// `dilithium3::SecretKey` of `pqcrypto-dilithium`: carried through, never
/// read.
#[verifier::external_type_specification]
#[verifier::external_body]
pub struct ExDilithiumSecretKey(dilithium3::SecretKey);

/// The length of a Kyber-768 ciphertext, in bytes.
pub const CIPHERTEXT_LENGTH: usize = 1088;

/// The length of a Dilithium3 signature, in bytes.
pub const SIGNATURE_LENGTH: usize = 3309;

/// Whether Dilithium3 accepts a signature of a message under a public key.
pub uninterp spec fn dilithium_accepts(signature: Seq<u8>, message: Seq<u8>, public_key: dilithium3::PublicKey) -> bool;

/// Calls `kyber768::keypair`. The keys are random: nothing is said of them.
#[verifier::external_body]
pub(crate) fn kyber_keypair() -> (keys: (kyber768::PublicKey, kyber768::SecretKey)) {
    kyber768::keypair()
}

/// Calls `dilithium3::keypair`. The keys are random: nothing is said of them.
#[verifier::external_body]
pub(crate) fn dilithium_keypair() -> (keys: (dilithium3::PublicKey, dilithium3::SecretKey)) {
    dilithium3::keypair()
}

/// Calls `kyber768::encapsulate` and hands out the ciphertext as bytes, then
/// the shared secret. Both are random; the ciphertext has its fixed length.
#[verifier::external_body]
pub(crate) fn kyber_encapsulate(public_key: &kyber768::PublicKey) -> (sealed: (Vec<u8>, kyber768::SharedSecret))
    ensures
        sealed.0@.len() == CIPHERTEXT_LENGTH,
{
    let (shared_secret, ciphertext) = kyber768::encapsulate(public_key);
    (ciphertext.as_bytes().to_vec(), shared_secret)
}

/// Reads the bytes as a ciphertext with `Ciphertext::from_bytes`, which takes
/// exactly bytes of the fixed length, and calls `kyber768::decapsulate`.
#[verifier::external_body]
pub(crate) fn kyber_decapsulate(ciphertext: &[u8], secret_key: &kyber768::SecretKey) -> (shared_secret: Option<
    kyber768::SharedSecret,
>)
    ensures
        shared_secret.is_some() == (ciphertext@.len() == CIPHERTEXT_LENGTH),
{
    match kyber768::Ciphertext::from_bytes(ciphertext) {
        Ok(ciphertext) => Some(kyber768::decapsulate(&ciphertext, secret_key)),
        Err(_) => None,
    }
}

/// Calls `dilithium3::detached_sign` and hands out the signature as bytes. It
/// has the fixed length of a Dilithium3 signature.
#[verifier::external_body]
pub(crate) fn dilithium_sign(message: &[u8], secret_key: &dilithium3::SecretKey) -> (signature: Vec<u8>)
    ensures
        signature@.len() == SIGNATURE_LENGTH,
{
    dilithium3::detached_sign(message, secret_key).as_bytes().to_vec()
}

/// Reads the bytes as a signature with `DetachedSignature::from_bytes`, which
/// takes no more bytes than a signature has, and calls
/// `dilithium3::verify_detached_signature`. The verdict is a function of the
/// signature, the message and the key.
#[verifier::external_body]
pub(crate) fn dilithium_verify(signature: &[u8], message: &[u8], public_key: &dilithium3::PublicKey) -> (valid: bool)
    ensures
        valid == (signature@.len() <= SIGNATURE_LENGTH && dilithium_accepts(
            signature@,
            message@,
            *public_key,
        )),
{
    match dilithium3::DetachedSignature::from_bytes(signature) {
        Ok(signature) => dilithium3::verify_detached_signature(&signature, message, public_key).is_ok(),
        Err(_) => false,
    }
}

/// The keys of one server.
pub struct PQCryptoManager {
    kyber_keypair: Option<(kyber768::PublicKey, kyber768::SecretKey)>,
    dilithium_keypair: Option<(dilithium3::PublicKey, dilithium3::SecretKey)>,
}

impl PQCryptoManager {
    /// The Kyber-768 public key, once a key pair was generated.
    pub closed spec fn kyber_public_key(self) -> Option<kyber768::PublicKey> {
        match self.kyber_keypair {
            Some(keys) => Some(keys.0),
            None => None,
        }
    }

    /// The Dilithium3 public key, once a key pair was generated.
    pub closed spec fn dilithium_public_key(self) -> Option<dilithium3::PublicKey> {
        match self.dilithium_keypair {
            Some(keys) => Some(keys.0),
            None => None,
        }
    }

    /// A manager without keys.
    pub fn new() -> (manager: Self)
        ensures
            manager.kyber_public_key() is None,
            manager.dilithium_public_key() is None,
    {
        PQCryptoManager { kyber_keypair: None, dilithium_keypair: None }
    }

    /// Generates a new Kyber-768 key pair, in place of the one before.
    pub fn generate_kyber_keypair(&mut self)
        ensures
            final(self).kyber_public_key() is Some,
            final(self).dilithium_public_key() == old(self).dilithium_public_key(),
    {
        let (public_key, secret_key) = kyber_keypair();
        self.kyber_keypair = Some((public_key, secret_key));
    }

    /// Generates a new Dilithium3 key pair, in place of the one before.
    pub fn generate_dilithium_keypair(&mut self)
        ensures
            final(self).dilithium_public_key() is Some,
            final(self).kyber_public_key() == old(self).kyber_public_key(),
    {
        let (public_key, secret_key) = dilithium_keypair();
        self.dilithium_keypair = Some((public_key, secret_key));
    }

    /// Encapsulates a fresh shared secret to a peer's public key: the
    /// ciphertext for the peer, and the shared secret.
    pub fn encapsulate(&self, peer_public_key: &kyber768::PublicKey) -> (sealed: (
        Vec<u8>,
        kyber768::SharedSecret,
    ))
        ensures
            sealed.0@.len() == CIPHERTEXT_LENGTH,
    {
        kyber_encapsulate(peer_public_key)
    }

    /// Recovers the shared secret from a ciphertext. There is none without a
    /// Kyber-768 key pair, and none for bytes of another length than a
    /// ciphertext's.
    pub fn decapsulate(&self, ciphertext: &[u8]) -> (shared_secret: Option<kyber768::SharedSecret>)
        ensures
            shared_secret.is_some() == (self.kyber_public_key() is Some && ciphertext@.len()
                == CIPHERTEXT_LENGTH),
    {
        match &self.kyber_keypair {
            Some((_, secret_key)) => kyber_decapsulate(ciphertext, secret_key),
            None => None,
        }
    }

    /// Signs a message. There is no signature without a Dilithium3 key pair.
    pub fn sign(&self, message: &[u8]) -> (signature: Option<Vec<u8>>)
        ensures
            signature.is_some() == (self.dilithium_public_key() is Some),
            signature matches Some(bytes) ==> bytes@.len() == SIGNATURE_LENGTH,
    {
        match &self.dilithium_keypair {
            Some((_, secret_key)) => Some(dilithium_sign(message, secret_key)),
            None => None,
        }
    }

    /// Whether the bytes are a signature of the message under the public
    /// key. Bytes longer than a signature never are.
    pub fn verify(&self, message: &[u8], signature_bytes: &[u8], public_key: &dilithium3::PublicKey) -> (valid:
        bool)
        ensures
            valid == (signature_bytes@.len() <= SIGNATURE_LENGTH && dilithium_accepts(
                signature_bytes@,
                message@,
                *public_key,
            )),
    {
        dilithium_verify(signature_bytes, message, public_key)
    }

    /// The Kyber-768 public key, if a key pair was generated.
    pub fn get_kyber_public_key(&self) -> (public_key: Option<&kyber768::PublicKey>)
        ensures
            match public_key {
                Some(key) => self.kyber_public_key() == Some(*key),
                None => self.kyber_public_key() is None,
            },
    {
        match &self.kyber_keypair {
            Some((public_key, _)) => Some(public_key),
            None => None,
        }
    }

    /// The Dilithium3 public key, if a key pair was generated.
    pub fn get_dilithium_public_key(&self) -> (public_key: Option<&dilithium3::PublicKey>)
        ensures
            match public_key {
                Some(key) => self.dilithium_public_key() == Some(*key),
                None => self.dilithium_public_key() is None,
            },
    {
        match &self.dilithium_keypair {
            Some((public_key, _)) => Some(public_key),
            None => None,
        }
    }
}

/// Why a message could not be sealed or opened.
#[derive(Clone, Copy, Debug, PartialEq, Eq, Structural)]
pub enum CryptoError {
    /// The server has no key to sign with.
    SigningFailed,
    /// The signature is not the sender's signature of the message.
    InvalidSignature,
}

/// Seals a message: the message, followed by the server's signature of it.
/// It fails exactly where the server has no Dilithium3 key pair.
pub fn encrypt_message(pqc: &PQCryptoManager, plaintext: &[u8]) -> (sealed: Result<Vec<u8>, CryptoError>)
    ensures
        match sealed {
            Ok(bytes) => pqc.dilithium_public_key() is Some && bytes@.len() == plaintext@.len()
                + SIGNATURE_LENGTH && bytes@.subrange(0, plaintext@.len() as int) == plaintext@,
            Err(error) => pqc.dilithium_public_key() is None && error == CryptoError::SigningFailed,
        },
{
    let Some(signature) = pqc.sign(plaintext) else {
        return Err(CryptoError::SigningFailed);
    };
    let mut result = slice_to_vec(plaintext);
    let ghost message = result@;
    let mut i: usize = 0;
    while i < signature.len()
        invariant
            i <= signature.len(),
            signature@.len() == SIGNATURE_LENGTH,
            message == plaintext@,
            result@ == message + signature@.subrange(0, i as int),
        decreases signature.len() - i,
    {
        result.push(signature[i]);
        assert(result@ =~= message + signature@.subrange(0, i as int + 1));
        i += 1;
    }
    assert(result@.subrange(0, plaintext@.len() as int) =~= plaintext@);
    Ok(result)
}

/// Opens a sealed message: splits off the signature that ends it and hands
/// out the message exactly if the signature is the sender's.
pub fn decrypt_message(pqc: &PQCryptoManager, ciphertext: &[u8], sender_key: &dilithium3::PublicKey) -> (opened:
    Result<Vec<u8>, CryptoError>)
    requires
        ciphertext@.len() >= SIGNATURE_LENGTH,
    ensures
        ({
            let message = ciphertext@.subrange(0, ciphertext@.len() - SIGNATURE_LENGTH);
            let signature = ciphertext@.subrange(
                ciphertext@.len() - SIGNATURE_LENGTH,
                ciphertext@.len() as int,
            );
            match opened {
                Ok(bytes) => bytes@ == message && dilithium_accepts(signature, message, *sender_key),
                Err(error) => error == CryptoError::InvalidSignature && !dilithium_accepts(
                    signature,
                    message,
                    *sender_key,
                ),
            }
        }),
{
    let message_len = ciphertext.len() - SIGNATURE_LENGTH;
    let message = slice_subrange(ciphertext, 0, message_len);
    let signature = slice_subrange(ciphertext, message_len, ciphertext.len());
    if !pqc.verify(message, signature, sender_key) {
        return Err(CryptoError::InvalidSignature);
    }
    Ok(slice_to_vec(message))
}

} // verus!
