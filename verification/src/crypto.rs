//! Encrypted storage of API keys and other secrets with AES-256-GCM.
//! The cipher itself is outside work: its result is named by `aes_encrypt`,
//! and everything around it — bundle validation, expiry, lookup — is
//! verified against that name.

pub mod examples;

use vstd::prelude::*;
use vstd::string::StringSliceAdditionalSpecFns;
use vstd::utf8::encode_utf8;
use aes_gcm::Aes256Gcm;
use aes_gcm::Nonce;
use aes_gcm::aead::Aead;
use aes_gcm::aead::AeadCore;
use aes_gcm::aead::KeyInit;
use aes_gcm::aead::OsRng;
use crate::clock::now_millis;

verus! {

/// Error types for cryptographic operations.
#[derive(Debug)]
pub enum CryptoError {
    EncryptionFailed(String),
    DecryptionFailed(String),
    InvalidKey,
    InvalidCiphertextBundle,
}

/// Encrypted data bundle containing ciphertext and nonce.
#[derive(Debug)]
pub struct CiphertextBundle {
    /// Encrypted data.
    pub ciphertext: Vec<u8>,
    /// Nonce used for encryption (12 bytes for AES-GCM).
    pub nonce: Vec<u8>,
}

impl CiphertextBundle {
    /// Create a new bundle; a nonce of any length but 12 is rejected.
    pub fn new(ciphertext: Vec<u8>, nonce: Vec<u8>) -> (r: Result<Self, CryptoError>)
        ensures
            match r {
                Ok(b) => nonce@.len() == 12 && b.ciphertext@ == ciphertext@ && b.nonce@ == nonce@,
                Err(e) => nonce@.len() != 12 && e is InvalidCiphertextBundle,
            },
    {
        if nonce.len() != 12 {
            return Err(CryptoError::InvalidCiphertextBundle);
        }
        Ok(CiphertextBundle { ciphertext, nonce })
    }

    /// The nonce as a fixed-size array; fails exactly when its length is
    /// not 12.
    pub fn nonce_array(&self) -> (r: Result<[u8; 12], CryptoError>)
        ensures
            match r {
                Ok(a) => self.nonce@.len() == 12 && a@ == self.nonce@,
                Err(e) => self.nonce@.len() != 12 && e is InvalidCiphertextBundle,
            },
    {
        if self.nonce.len() != 12 {
            return Err(CryptoError::InvalidCiphertextBundle);
        }
        let a: [u8; 12] = [
            self.nonce[0],
            self.nonce[1],
            self.nonce[2],
            self.nonce[3],
            self.nonce[4],
            self.nonce[5],
            self.nonce[6],
            self.nonce[7],
            self.nonce[8],
            self.nonce[9],
            self.nonce[10],
            self.nonce[11],
        ];
        proof {
            assert(a@ =~= self.nonce@);
        }
        Ok(a)
    }
}

/// The AES-256-GCM ciphertext (with its authentication tag) of `plaintext`
/// under `key` and `nonce`. A function of its arguments alone.
pub uninterp spec fn aes_encrypt(key: Seq<u8>, nonce: Seq<u8>, plaintext: Seq<u8>) -> Seq<u8>;

/// Relies on aes_gcm::Aes256Gcm for AES-256-GCM authenticated encryption:
/// the nonce is 12 random bytes drawn fresh from the operating system, and
/// the ciphertext is a function of key, nonce and plaintext alone. The
/// cipher cannot encrypt payloads beyond its block-counter limit, so the
/// plaintext is kept well inside it.
#[verifier::external_body]
pub fn encrypt(master_key: &[u8; 32], plaintext: &[u8]) -> (r: CiphertextBundle)
    requires
        plaintext@.len() < 0x1_0000_0000,
    ensures
        r.nonce@.len() == 12,
        r.ciphertext@ == aes_encrypt(master_key@, r.nonce@, plaintext@),
{
    let cipher = Aes256Gcm::new_from_slice(master_key).expect("Invalid master key size");
    let nonce = Aes256Gcm::generate_nonce(&mut OsRng);
    let ciphertext = cipher
        .encrypt(&nonce, plaintext)
        .expect("Encryption should never fail with valid key and nonce");
    CiphertextBundle { ciphertext, nonce: nonce.to_vec() }
}

/// Relies on aes_gcm::Aes256Gcm for AES-256-GCM decryption: it succeeds
/// exactly on authentic ciphertexts, returning the one plaintext whose
/// encryption under the same key and nonce is the ciphertext (decryption
/// is a function, so that plaintext is unique); the error carries the
/// cipher's own description.
#[verifier::external_body]
fn aes_decrypt_raw(master_key: &[u8; 32], ciphertext: &[u8], nonce: &[u8; 12]) -> (r: Result<
    Vec<u8>,
    String,
>)
    ensures
        r matches Ok(p) ==> ciphertext@ == aes_encrypt(master_key@, nonce@, p@),
        r matches Ok(p) ==> forall|q: Seq<u8>|
            ciphertext@ == aes_encrypt(master_key@, nonce@, q) ==> q == p@,
        (exists|p: Seq<u8>| ciphertext@ == aes_encrypt(master_key@, nonce@, p)) ==> r is Ok,
{
    let cipher = Aes256Gcm::new_from_slice(master_key).map_err(|e| e.to_string())?;
    let nonce = Nonce::from_slice(nonce);
    cipher.decrypt(nonce, ciphertext).map_err(|e| e.to_string())
}

/// Decrypt a bundle. A malformed nonce is rejected as an invalid bundle;
/// an authentic ciphertext — in particular anything `encrypt` produced
/// under the same key — decrypts to the plaintext it encrypts, and a
/// tampered or foreign ciphertext fails.
pub fn decrypt(master_key: &[u8; 32], bundle: &CiphertextBundle) -> (r: Result<Vec<u8>, CryptoError>)
    ensures
        match r {
            Ok(p) => bundle.nonce@.len() == 12 && bundle.ciphertext@ == aes_encrypt(
                master_key@,
                bundle.nonce@,
                p@,
            ) && (forall|q: Seq<u8>|
                bundle.ciphertext@ == aes_encrypt(master_key@, bundle.nonce@, q) ==> q == p@),
            Err(e) => e is InvalidCiphertextBundle || e is DecryptionFailed,
        },
        bundle.nonce@.len() != 12 ==> (r matches Err(e) && e is InvalidCiphertextBundle),
        bundle.nonce@.len() == 12 && (exists|p: Seq<u8>|
            bundle.ciphertext@ == aes_encrypt(master_key@, bundle.nonce@, p)) ==> r is Ok,
{
    let nonce = match bundle.nonce_array() {
        Ok(a) => a,
        Err(e) => {
            return Err(e);
        },
    };
    match aes_decrypt_raw(master_key, bundle.ciphertext.as_slice(), &nonce) {
        Ok(p) => Ok(p),
        Err(detail) => Err(CryptoError::DecryptionFailed(detail)),
    }
}

/// Relies on rand::rngs::OsRng for a random 32-byte master key; nothing is
/// assumed about the value drawn.
#[verifier::external_body]
pub fn generate_master_key() -> [u8; 32] {
    let mut key = [0u8; 32];
    rand::RngCore::fill_bytes(&mut rand::rngs::OsRng, &mut key);
    key
}

/// Relies on String::from_utf8: on success the returned string's UTF-8
/// encoding is exactly the input bytes; the error carries the standard
/// description of the failure.
#[verifier::external_body]
fn bytes_into_string(bytes: Vec<u8>) -> (r: Result<String, String>)
    ensures
        r matches Ok(s) ==> encode_utf8(s@) == bytes@,
{
    String::from_utf8(bytes).map_err(|e| format!("Invalid UTF-8: {}", e))
}

/// Securely store an encrypted API key with metadata.
#[derive(Debug)]
pub struct EncryptedApiKey {
    /// Service name.
    pub service: String,
    /// Key identifier or description.
    pub key_id: String,
    /// Encrypted API key.
    pub encrypted_key: CiphertextBundle,
    /// When the key was encrypted, in milliseconds since the epoch.
    pub created_at: u64,
    /// Optional expiration time, in milliseconds since the epoch.
    pub expires_at: Option<u64>,
}

impl EncryptedApiKey {
    /// Encrypt `api_key` under `master_key` and record it with its
    /// metadata; the stored ciphertext is the encryption of the key's
    /// UTF-8 bytes under the freshly drawn nonce.
    pub fn new(
        service: String,
        key_id: String,
        api_key: &str,
        master_key: &[u8; 32],
        expires_at: Option<u64>,
    ) -> (r: Self)
        requires
            api_key.spec_bytes().len() < 0x1_0000_0000,
        ensures
            r.service == service,
            r.key_id == key_id,
            r.expires_at == expires_at,
            r.encrypted_key.nonce@.len() == 12,
            r.encrypted_key.ciphertext@ == aes_encrypt(
                master_key@,
                r.encrypted_key.nonce@,
                api_key.spec_bytes(),
            ),
    {
        let encrypted_key = encrypt(master_key, api_key.as_bytes());
        EncryptedApiKey {
            service,
            key_id,
            encrypted_key,
            created_at: now_millis(),
            expires_at,
        }
    }

    /// Decrypt the API key (meant for worker task memory only). On success
    /// the stored ciphertext is the encryption of the returned string's
    /// bytes; an authentic bundle holding valid UTF-8 succeeds.
    pub fn decrypt_key(&self, master_key: &[u8; 32]) -> (r: Result<String, CryptoError>)
        ensures
            match r {
                Ok(s) => self.encrypted_key.ciphertext@ == aes_encrypt(
                    master_key@,
                    self.encrypted_key.nonce@,
                    encode_utf8(s@),
                ),
                Err(e) => e is InvalidCiphertextBundle || e is DecryptionFailed,
            },
    {
        let plaintext = match decrypt(master_key, &self.encrypted_key) {
            Ok(p) => p,
            Err(e) => {
                return Err(e);
            },
        };
        match bytes_into_string(plaintext) {
            Ok(s) => Ok(s),
            Err(detail) => Err(CryptoError::DecryptionFailed(detail)),
        }
    }

    /// Whether the key is expired at time `now`: only keys with an
    /// expiration time ever expire, and only strictly after it.
    pub fn is_expired_at(&self, now: u64) -> (r: bool)
        ensures
            r == match self.expires_at {
                Some(t) => now > t,
                None => false,
            },
    {
        match self.expires_at {
            Some(t) => now > t,
            None => false,
        }
    }

    /// Whether the key has expired, against the wall clock. A key without
    /// an expiration time never expires, whatever the clock says.
    pub fn is_expired(&self) -> (r: bool)
        ensures
            self.expires_at is None ==> r == false,
            r ==> self.expires_at is Some,
    {
        let now = now_millis();
        self.is_expired_at(now)
    }
}

} // verus!
