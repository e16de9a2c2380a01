//! Sealing payloads with AES-256-GCM, deriving keys from passwords, and the
//! encryption levels that can be chosen.
//!
//! The ciphers themselves are those of the crates `aes-gcm`, `sha2` and
//! `base64`; this module frames their input and output. A sealed message is
//! the nonce it was sealed with, twelve bytes, followed by what the cipher
//! made of the payload. Every message is sealed with a nonce of its own.

use vstd::prelude::*;
use vstd::slice::slice_subrange;
use vstd::string::StringSliceAdditionalSpecFns;
use aes_gcm::aead::{Aead, KeyInit};
use base64::Engine;
use rand::RngCore;
use sha2::Digest;
use crate::VpnError;

verus! {

/// The length of a key, in bytes.
pub const KEY_LEN: usize = 32;

/// The length of a nonce, in bytes.
pub const NONCE_LEN: usize = 12;

/// A name for the SHA-256 digest of a message, as `sha2::Sha256::digest`
/// computes it.
pub uninterp spec fn sha256(message: Seq<u8>) -> Seq<u8>;

/// A name for what `aes_gcm::Aes256Gcm` makes of a payload under a key and a
/// nonce: the ciphertext followed by its tag, or nothing where the cipher
/// refuses the payload.
pub uninterp spec fn aes_gcm_seal(key: Seq<u8>, nonce: Seq<u8>, payload: Seq<u8>) -> Option<Seq<u8>>;

/// A name for what `aes_gcm::Aes256Gcm` recovers from a ciphertext with its
/// tag under a key and a nonce: the payload, or nothing where the tag does
/// not fit or the cipher refuses the input.
pub uninterp spec fn aes_gcm_open(key: Seq<u8>, nonce: Seq<u8>, sealed: Seq<u8>) -> Option<Seq<u8>>;

/// A name for the text that the standard base64 alphabet with padding writes
/// for a string of bytes, as `base64::engine::general_purpose::STANDARD`
/// encodes it.
pub uninterp spec fn base64_text(bytes: Seq<u8>) -> Seq<char>;

/// A name for the bytes that a text stands for in the standard base64
/// alphabet with padding, as `base64::engine::general_purpose::STANDARD`
/// decodes it, or nothing where the text is no such encoding.
pub uninterp spec fn base64_bytes(text: Seq<char>) -> Option<Seq<u8>>;

/// Whether a string of this many bytes can be written in base64: the text
/// has a length that the machine can hold.
pub open spec fn encodable(len: nat) -> bool {
    (len / 3) * 4 + 4 <= usize::MAX
}

/// `sha2::Sha256::digest`: the digest of the message, which depends on the
/// message alone.
#[verifier::external_body]
fn digest(message: &[u8]) -> (r: [u8; 32])
    ensures
        r@ == sha256(message@),
{
    sha2::Sha256::digest(message).into()
}

/// `aes_gcm::Aes256Gcm::new` and `encrypt` of `aead::Aead`, without
/// associated data: what the cipher makes of the payload, which depends on
/// key, nonce and payload alone. The nonce must have twelve bytes.
#[verifier::external_body]
fn seal(key: &[u8; 32], nonce: &[u8], payload: &[u8]) -> (r: Option<Vec<u8>>)
    requires
        nonce@.len() == NONCE_LEN,
    ensures
        match r {
            Some(c) => aes_gcm_seal(key@, nonce@, payload@) == Some(c@),
            None => aes_gcm_seal(key@, nonce@, payload@) is None,
        },
{
    let cipher = aes_gcm::Aes256Gcm::new(aes_gcm::Key::<aes_gcm::Aes256Gcm>::from_slice(key));
    match cipher.encrypt(aes_gcm::Nonce::from_slice(nonce), payload) {
        Ok(sealed) => Some(sealed),
        Err(_) => None,
    }
}

/// `aes_gcm::Aes256Gcm::new` and `decrypt` of `aead::Aead`, without
/// associated data: what the cipher recovers, which depends on key, nonce
/// and input alone. The nonce must have twelve bytes.
#[verifier::external_body]
fn open(key: &[u8; 32], nonce: &[u8], sealed: &[u8]) -> (r: Option<Vec<u8>>)
    requires
        nonce@.len() == NONCE_LEN,
    ensures
        match r {
            Some(p) => aes_gcm_open(key@, nonce@, sealed@) == Some(p@),
            None => aes_gcm_open(key@, nonce@, sealed@) is None,
        },
{
    let cipher = aes_gcm::Aes256Gcm::new(aes_gcm::Key::<aes_gcm::Aes256Gcm>::from_slice(key));
    match cipher.decrypt(aes_gcm::Nonce::from_slice(nonce), sealed) {
        Ok(payload) => Some(payload),
        Err(_) => None,
    }
}

/// `encode` of `base64::Engine` on the engine `STANDARD`: the text of the
/// bytes, which depends on the bytes alone. The engine gives up on input
/// whose text would be longer than the machine can hold; such input is left
/// out.
#[verifier::external_body]
fn to_base64(bytes: &[u8]) -> (r: String)
    requires
        encodable(bytes@.len()),
    ensures
        r@ == base64_text(bytes@),
{
    base64::engine::general_purpose::STANDARD.encode(bytes)
}

/// `decode` of `base64::Engine` on the engine `STANDARD`: the bytes of the
/// text, which depend on the text alone, or nothing where the engine reports
/// an error.
#[verifier::external_body]
fn from_base64(text: &str) -> (r: Option<Vec<u8>>)
    ensures
        match r {
            Some(b) => base64_bytes(text@) == Some(b@),
            None => base64_bytes(text@) is None,
        },
{
    match base64::engine::general_purpose::STANDARD.decode(text) {
        Ok(bytes) => Some(bytes),
        Err(_) => None,
    }
}

/// `fill_bytes` of `rand::thread_rng()`: twelve bytes of which nothing is
/// promised.
#[verifier::external_body]
fn fresh_nonce() -> (r: [u8; 12]) {
    let mut nonce = [0u8; 12];
    rand::thread_rng().fill_bytes(&mut nonce);
    nonce
}

/// A new key: thirty-two bytes from `fill_bytes` of `rand::thread_rng()`,
/// of which nothing is promised.
#[verifier::external_body]
pub fn generate_random_key() -> (r: [u8; 32]) {
    let mut key = [0u8; 32];
    rand::thread_rng().fill_bytes(&mut key);
    key
}

/// The two strings of bytes, one after the other.
fn joined(a: &[u8], b: &[u8]) -> (r: Vec<u8>)
    ensures
        r@ == a@ + b@,
{
    let mut out: Vec<u8> = Vec::new();
    let mut i: usize = 0;
    while i < a.len()
        invariant
            i <= a.len(),
            out@ == a@.take(i as int),
        decreases a.len() - i,
    {
        out.push(a[i]);
        assert(out@ =~= a@.take(i + 1));
        i += 1;
    }
    let mut k: usize = 0;
    assert(a@.take(a.len() as int) =~= a@);
    assert(out@ =~= a@ + b@.take(0));
    while k < b.len()
        invariant
            k <= b.len(),
            out@ == a@ + b@.take(k as int),
        decreases b.len() - k,
    {
        out.push(b[k]);
        assert(out@ =~= a@ + b@.take(k + 1));
        k += 1;
    }
    assert(b@.take(b.len() as int) =~= b@);
    out
}

/// What sealing a payload under a key with a nonce gives: the nonce, then
/// what the cipher made of the payload.
pub open spec fn sealed_message(key: Seq<u8>, nonce: Seq<u8>, payload: Seq<u8>) -> Option<Seq<u8>> {
    match aes_gcm_seal(key, nonce, payload) {
        Some(c) => Some(nonce + c),
        None => None,
    }
}

/// What opening a sealed message under a key gives: the message must hold a
/// nonce, and the cipher must accept what follows it.
pub open spec fn opened_message(key: Seq<u8>, message: Seq<u8>) -> Option<Seq<u8>> {
    if message.len() < NONCE_LEN {
        None
    } else {
        aes_gcm_open(key, message.take(NONCE_LEN as int), message.skip(NONCE_LEN as int))
    }
}

/// The base64 text of the sealed message, where the payload can be sealed
/// and the sealed message can be written.
pub open spec fn sealed_text(key: Seq<u8>, nonce: Seq<u8>, payload: Seq<u8>) -> Option<Seq<char>> {
    match sealed_message(key, nonce, payload) {
        Some(m) => if encodable(m.len()) {
            Some(base64_text(m))
        } else {
            None
        },
        None => None,
    }
}

/// Seals and opens payloads under one key.
pub struct EncryptionManager {
    key: [u8; 32],
}

impl EncryptionManager {
    /// The key.
    pub closed spec fn key(&self) -> Seq<u8> {
        self.key@
    }

    /// A manager for the given key.
    pub fn new(key: &[u8; 32]) -> (r: Self)
        ensures
            r.key() == key@,
    {
        EncryptionManager { key: *key }
    }

    /// A manager whose key is the SHA-256 digest of the password.
    pub fn from_password(password: &str) -> (r: Self)
        ensures
            r.key() == sha256(password.spec_bytes()),
    {
        let key = Self::derive_key(password);
        Self::new(&key)
    }

    /// The key that belongs to a password: its SHA-256 digest.
    pub fn derive_key(password: &str) -> (r: [u8; 32])
        ensures
            r@ == sha256(password.spec_bytes()),
    {
        digest(password.as_bytes())
    }

    /// Seals the payload with the given nonce. The cipher refuses only
    /// payloads beyond its limit.
    pub fn encrypt_with_nonce(&self, nonce: &[u8; 12], data: &[u8]) -> (r: Result<Vec<u8>, VpnError>)
        ensures
            match r {
                Ok(out) => sealed_message(self.key(), nonce@, data@) == Some(out@),
                Err(e) => {
                    &&& sealed_message(self.key(), nonce@, data@) is None
                    &&& e matches VpnError::EncryptionError(m)
                    &&& m@ == "Encryption failed: aead::Error"@
                },
            },
    {
        match seal(&self.key, nonce.as_slice(), data) {
            Some(c) => Ok(joined(nonce.as_slice(), c.as_slice())),
            None => Err(VpnError::EncryptionError("Encryption failed: aead::Error".to_string())),
        }
    }

    /// Seals the payload with a nonce of its own: the result starts with
    /// the nonce that was used and goes on with what the cipher made of the
    /// payload under it.
    pub fn encrypt(&self, data: &[u8]) -> (r: Result<Vec<u8>, VpnError>)
        ensures
            match r {
                Ok(out) => out@.len() >= NONCE_LEN && sealed_message(
                    self.key(),
                    out@.take(NONCE_LEN as int),
                    data@,
                ) == Some(out@),
                Err(e) => {
                    &&& exists|nonce: Seq<u8>|
                        nonce.len() == NONCE_LEN && #[trigger] sealed_message(
                            self.key(),
                            nonce,
                            data@,
                        ) is None
                    &&& e matches VpnError::EncryptionError(m)
                    &&& m@ == "Encryption failed: aead::Error"@
                },
            },
    {
        let nonce = fresh_nonce();
        let r = self.encrypt_with_nonce(&nonce, data);
        proof {
            if r is Ok {
                let c = aes_gcm_seal(self.key(), nonce@, data@)->0;
                assert((nonce@ + c).take(NONCE_LEN as int) =~= nonce@);
            } else {
                assert(sealed_message(self.key(), nonce@, data@) is None);
            }
        }
        r
    }

    /// Opens a sealed message: reads the nonce off its start and lets the
    /// cipher recover the payload from the rest.
    pub fn decrypt(&self, encrypted_data: &[u8]) -> (r: Result<Vec<u8>, VpnError>)
        ensures
            match r {
                Ok(out) => opened_message(self.key(), encrypted_data@) == Some(out@),
                Err(e) => {
                    &&& opened_message(self.key(), encrypted_data@) is None
                    &&& e matches VpnError::EncryptionError(m)
                    &&& m@ == "Decryption failed: aead::Error"@
                },
            },
    {
        if encrypted_data.len() < NONCE_LEN {
            return Err(VpnError::EncryptionError("Decryption failed: aead::Error".to_string()));
        }
        let nonce = slice_subrange(encrypted_data, 0, NONCE_LEN);
        let rest = slice_subrange(encrypted_data, NONCE_LEN, encrypted_data.len());
        proof {
            assert(nonce@ =~= encrypted_data@.take(NONCE_LEN as int));
            assert(rest@ =~= encrypted_data@.skip(NONCE_LEN as int));
        }
        match open(&self.key, nonce, rest) {
            Some(p) => Ok(p),
            None => Err(VpnError::EncryptionError("Decryption failed: aead::Error".to_string())),
        }
    }

    /// Seals the payload with the given nonce and writes the sealed message
    /// in base64. A sealed message too long to be written is refused.
    pub fn encrypt_base64_with_nonce(&self, nonce: &[u8; 12], data: &[u8]) -> (r: Result<
        String,
        VpnError,
    >)
        ensures
            match r {
                Ok(text) => sealed_text(self.key(), nonce@, data@) == Some(text@),
                Err(e) => {
                    &&& sealed_text(self.key(), nonce@, data@) is None
                    &&& e matches VpnError::EncryptionError(m)
                    &&& m@ == (if sealed_message(self.key(), nonce@, data@) is None {
                        "Encryption failed: aead::Error"@
                    } else {
                        "Encryption failed: message too long"@
                    })
                },
            },
    {
        match self.encrypt_with_nonce(nonce, data) {
            Ok(sealed) => match encode_checked(sealed.as_slice()) {
                Some(text) => Ok(text),
                None => Err(
                    VpnError::EncryptionError("Encryption failed: message too long".to_string()),
                ),
            },
            Err(e) => Err(e),
        }
    }

    /// Seals the payload with a nonce of its own and writes the sealed
    /// message in base64.
    pub fn encrypt_base64(&self, data: &[u8]) -> (r: Result<String, VpnError>)
        ensures
            match r {
                Ok(text) => exists|nonce: Seq<u8>|
                    nonce.len() == NONCE_LEN && #[trigger] sealed_text(self.key(), nonce, data@)
                        == Some(text@),
                Err(e) => {
                    &&& exists|nonce: Seq<u8>|
                        nonce.len() == NONCE_LEN && #[trigger] sealed_text(
                            self.key(),
                            nonce,
                            data@,
                        ) is None
                    &&& e is EncryptionError
                },
            },
    {
        let nonce = fresh_nonce();
        let r = self.encrypt_base64_with_nonce(&nonce, data);
        proof {
            if r is Ok {
                assert(sealed_text(self.key(), nonce@, data@) == Some(r->Ok_0@));
            } else {
                assert(sealed_text(self.key(), nonce@, data@) is None);
            }
        }
        r
    }

    /// Reads a sealed message from its base64 text and opens it.
    pub fn decrypt_base64(&self, encrypted_base64: &str) -> (r: Result<Vec<u8>, VpnError>)
        ensures
            match r {
                Ok(out) => base64_bytes(encrypted_base64@) matches Some(m) && opened_message(
                    self.key(),
                    m,
                ) == Some(out@),
                Err(e) => match base64_bytes(encrypted_base64@) {
                    Some(m) => {
                        &&& opened_message(self.key(), m) is None
                        &&& e matches VpnError::EncryptionError(t)
                        &&& t@ == "Decryption failed: aead::Error"@
                    },
                    None => {
                        &&& e matches VpnError::EncryptionError(t)
                        &&& t@ == "Base64 decode failed"@
                    },
                },
            },
    {
        match from_base64(encrypted_base64) {
            Some(bytes) => self.decrypt(bytes.as_slice()),
            None => Err(VpnError::EncryptionError("Base64 decode failed".to_string())),
        }
    }
}

/// Writes bytes in base64 where the text has a length that the machine can
/// hold, and nothing otherwise.
pub fn encode_checked(bytes: &[u8]) -> (r: Option<String>)
    ensures
        match r {
            Some(text) => encodable(bytes@.len()) && text@ == base64_text(bytes@),
            None => !encodable(bytes@.len()),
        },
{
    if bytes.len() / 3 <= (usize::MAX - 4) / 4 {
        Some(to_base64(bytes))
    } else {
        None
    }
}

/// The fingerprint of a password with its salt: the SHA-256 digest of the
/// password followed by the salt, in base64.
pub fn hash_password(password: &str, salt: &str) -> (r: String)
    ensures
        r@ == base64_text(sha256(password.spec_bytes() + salt.spec_bytes())),
{
    let message = joined(password.as_bytes(), salt.as_bytes());
    let d = digest(message.as_slice());
    to_base64(d.as_slice())
}

/// How strongly traffic is encrypted.
#[derive(Debug, Clone, Copy, PartialEq, Eq, Structural)]
pub enum EncryptionLevel {
    NoEncryption,
    Standard,
    Strong,
    Maximum,
}

impl EncryptionLevel {
    pub open spec fn description_text(self) -> Seq<char> {
        match self {
            EncryptionLevel::NoEncryption => "No encryption (not recommended)"@,
            EncryptionLevel::Standard => "AES-128 encryption"@,
            EncryptionLevel::Strong => "AES-256 encryption (recommended)"@,
            EncryptionLevel::Maximum => "AES-256 with double encryption"@,
        }
    }

    /// The length of the key of the level, in bytes.
    pub open spec fn key_len(self) -> usize {
        match self {
            EncryptionLevel::NoEncryption => 0,
            EncryptionLevel::Standard => 16,
            EncryptionLevel::Strong => 32,
            EncryptionLevel::Maximum => 32,
        }
    }

    pub fn description(&self) -> (r: &'static str)
        ensures
            r@ == self.description_text(),
    {
        match self {
            EncryptionLevel::NoEncryption => "No encryption (not recommended)",
            EncryptionLevel::Standard => "AES-128 encryption",
            EncryptionLevel::Strong => "AES-256 encryption (recommended)",
            EncryptionLevel::Maximum => "AES-256 with double encryption",
        }
    }

    pub fn key_size(&self) -> (r: usize)
        ensures
            r == self.key_len(),
    {
        match self {
            EncryptionLevel::NoEncryption => 0,
            EncryptionLevel::Standard => 16,
            EncryptionLevel::Strong => 32,
            EncryptionLevel::Maximum => 32,
        }
    }
}

} // verus!
