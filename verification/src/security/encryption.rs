//! Encryption at rest with AES-256-GCM.
//!
//! The key stays in the `EncryptionManager`; only the random nonce goes into
//! the output, whose layout is `[12-byte nonce][ciphertext + 16-byte tag]`.
use crate::platform::system_random;
use crate::security::error::SecurityError;
use vstd::prelude::*;

verus! {

/// Length of an AES-GCM nonce in bytes.
pub const NONCE_LEN: usize = 12;

/// Length of an AES-GCM authentication tag in bytes.
pub const TAG_LEN: usize = 16;

/// Longest input that AES-GCM seals under one nonce, in bytes
/// (`(2^32 - 2)` blocks of 16 bytes).
pub const AES_GCM_MAX_INPUT: u64 = 68719476704;

/// The ciphertext with its tag appended that AES-256-GCM produces for `data`
/// under `key` and `nonce`, with no associated data.
pub uninterp spec fn aes256_gcm_sealed(key: Seq<u8>, nonce: Seq<u8>, data: Seq<u8>) -> Seq<u8>;

/// What AES-256-GCM opening of `sealed` (ciphertext followed by tag) under
/// `key` and `nonce`, with no associated data, gives back: the plaintext, or
/// `None` when the tag does not authenticate.
pub uninterp spec fn aes256_gcm_opened(key: Seq<u8>, nonce: Seq<u8>, sealed: Seq<u8>) -> Option<Seq<u8>>;

/// 32 bytes from `SecureRandom::fill` on the system source, or `None` when
/// the operating system gives none. The bytes are random, so nothing is
/// stated of them.
#[verifier::external_body]
fn random_key(rng: &ring::rand::SystemRandom) -> Option<[u8; 32]> {
    let mut key = [0u8; 32];
    match ring::rand::SecureRandom::fill(rng, &mut key) {
        Ok(()) => Some(key),
        Err(_) => None,
    }
}

/// 12 bytes from `SecureRandom::fill` on the system source, or `None` when
/// the operating system gives none. Only the length is stated.
#[verifier::external_body]
fn random_nonce(rng: &ring::rand::SystemRandom) -> (r: Option<Vec<u8>>)
    ensures
        r matches Some(n) ==> n@.len() == NONCE_LEN,
{
    let mut nonce = [0u8; 12];
    match ring::rand::SecureRandom::fill(rng, &mut nonce) {
        Ok(()) => Some(nonce.to_vec()),
        Err(_) => None,
    }
}

/// `LessSafeKey::seal_in_place_append_tag` with an AES-256-GCM key made by
/// `UnboundKey::new` from `key`, the nonce `nonce` and empty associated data.
/// The ring source refuses only inputs longer than `AES_GCM_MAX_INPUT`; the
/// output is the ciphertext (as long as `data`) followed by the 16-byte tag,
/// and opening it with the same key and nonce gives `data` back.
#[verifier::external_body]
fn seal(key: &[u8; 32], nonce: &[u8], data: &[u8]) -> (r: Option<Vec<u8>>)
    requires
        nonce@.len() == NONCE_LEN,
    ensures
        data@.len() <= AES_GCM_MAX_INPUT ==> r is Some,
        r matches Some(c) ==> {
            &&& c@ == aes256_gcm_sealed(key@, nonce@, data@)
            &&& c@.len() == data@.len() + TAG_LEN
            &&& aes256_gcm_opened(key@, nonce@, c@) == Some(data@)
        },
{
    let unbound = match ring::aead::UnboundKey::new(&ring::aead::AES_256_GCM, key) {
        Ok(k) => k,
        Err(_) => return None,
    };
    let sealing = ring::aead::LessSafeKey::new(unbound);
    let nonce = ring::aead::Nonce::assume_unique_for_key(nonce.try_into().unwrap());
    let mut in_out = data.to_vec();
    match sealing.seal_in_place_append_tag(nonce, ring::aead::Aad::empty(), &mut in_out) {
        Ok(()) => Some(in_out),
        Err(_) => None,
    }
}

/// `LessSafeKey::open_in_place` with an AES-256-GCM key made by
/// `UnboundKey::new` from `key`, the nonce `nonce` and empty associated data.
#[verifier::external_body]
fn open(key: &[u8; 32], nonce: &[u8], sealed: &[u8]) -> (r: Option<Vec<u8>>)
    requires
        nonce@.len() == NONCE_LEN,
    ensures
        match r {
            Some(p) => aes256_gcm_opened(key@, nonce@, sealed@) == Some(p@),
            None => aes256_gcm_opened(key@, nonce@, sealed@) is None,
        },
{
    let unbound = match ring::aead::UnboundKey::new(&ring::aead::AES_256_GCM, key) {
        Ok(k) => k,
        Err(_) => return None,
    };
    let opening = ring::aead::LessSafeKey::new(unbound);
    let nonce = ring::aead::Nonce::assume_unique_for_key(nonce.try_into().unwrap());
    let mut in_out = sealed.to_vec();
    match opening.open_in_place(nonce, ring::aead::Aad::empty(), &mut in_out) {
        Ok(plain) => Some(plain.to_vec()),
        Err(_) => None,
    }
}

/// The encrypted form of `data` under `key` with nonce `nonce`.
pub open spec fn spec_encrypted(key: Seq<u8>, nonce: Seq<u8>, data: Seq<u8>) -> Seq<u8> {
    nonce + aes256_gcm_sealed(key, nonce, data)
}

/// What decrypting `data` under `key` gives: the plaintext, or `None` when
/// `data` is shorter than a nonce or does not authenticate.
pub open spec fn spec_decrypted(key: Seq<u8>, data: Seq<u8>) -> Option<Seq<u8>> {
    if data.len() < NONCE_LEN {
        None
    } else {
        aes256_gcm_opened(key, data.take(NONCE_LEN as int), data.skip(NONCE_LEN as int))
    }
}

/// The bytes `s[from..to]` as a vector.
fn copy_range(s: &[u8], from: usize, to: usize) -> (v: Vec<u8>)
    requires
        from <= to <= s@.len(),
    ensures
        v@ == s@.subrange(from as int, to as int),
{
    let mut v: Vec<u8> = Vec::new();
    let mut i = from;
    while i < to
        invariant
            from <= i <= to <= s@.len(),
            v@ == s@.subrange(from as int, i as int),
        decreases to - i,
    {
        v.push(s[i]);
        i = i + 1;
    }
    v
}

/// Encryption manager that holds a persistent AES-256-GCM key.
pub struct EncryptionManager {
    key_bytes: [u8; 32],
    rng: ring::rand::SystemRandom,
}

impl EncryptionManager {
    /// The key data is encrypted under.
    pub closed spec fn spec_key(&self) -> Seq<u8> {
        self.key_bytes@
    }

    /// A manager with a freshly generated random key, or an error when the
    /// operating system gives no random bytes.
    pub fn new() -> (r: Result<Self, SecurityError>)
        ensures
            match r {
                Ok(m) => m.spec_key().len() == 32,
                Err(e) => (e matches SecurityError::EncryptionError(m) && m@ == "Failed to generate encryption key"@),
            },
    {
        let rng = system_random();
        match random_key(&rng) {
            Some(key_bytes) => Ok(EncryptionManager { key_bytes, rng }),
            None => Err(SecurityError::EncryptionError("Failed to generate encryption key".to_owned())),
        }
    }

    /// A manager with a given key (for example one from a key service).
    pub fn with_key(key_bytes: [u8; 32]) -> (m: Self)
        ensures
            m.spec_key() == key_bytes@,
    {
        EncryptionManager { key_bytes, rng: system_random() }
    }

    /// Encrypts `data` with the nonce `nonce` drawn for it, or fails when no
    /// nonce could be drawn.
    pub fn encrypt_with_nonce(&self, nonce: Option<Vec<u8>>, data: &[u8]) -> (r: Result<Vec<u8>, SecurityError>)
        requires
            nonce matches Some(n) ==> n@.len() == NONCE_LEN,
        ensures
            match nonce {
                None => (r matches Err(SecurityError::EncryptionError(m)) && m@ == "Failed to generate nonce"@),
                Some(n) => match r {
                    Ok(c) => {
                        &&& c@ == spec_encrypted(self.spec_key(), n@, data@)
                        &&& c@.len() == NONCE_LEN + data@.len() + TAG_LEN
                        &&& spec_decrypted(self.spec_key(), c@) == Some(data@)
                    },
                    Err(SecurityError::EncryptionError(m)) => data@.len() > AES_GCM_MAX_INPUT && m@ == "Encryption failed"@,
                    Err(_) => false,
                },
            },
    {
        let n = match nonce {
            Some(n) => n,
            None => {
                return Err(SecurityError::EncryptionError("Failed to generate nonce".to_owned()));
            },
        };
        let sealed = match seal(&self.key_bytes, n.as_slice(), data) {
            Some(c) => c,
            None => {
                return Err(SecurityError::EncryptionError("Encryption failed".to_owned()));
            },
        };
        let mut out: Vec<u8> = Vec::new();
        let mut i: usize = 0;
        while i < n.len()
            invariant
                i <= n@.len(),
                out@ == n@.subrange(0, i as int),
            decreases n@.len() - i,
        {
            out.push(n[i]);
            i = i + 1;
        }
        let mut j: usize = 0;
        while j < sealed.len()
            invariant
                n@.len() == NONCE_LEN,
                j <= sealed@.len(),
                out@ == n@ + sealed@.subrange(0, j as int),
            decreases sealed@.len() - j,
        {
            out.push(sealed[j]);
            j = j + 1;
        }
        assert(sealed@.subrange(0, sealed@.len() as int) == sealed@);
        assert(out@.take(NONCE_LEN as int) == n@);
        assert(out@.skip(NONCE_LEN as int) == sealed@);
        Ok(out)
    }

    /// Encrypts `data` under a fresh random nonce.
    /// Output layout: `[12-byte nonce][ciphertext + 16-byte tag]`.
    pub fn encrypt(&self, data: &[u8]) -> (r: Result<Vec<u8>, SecurityError>)
        ensures
            match r {
                Ok(c) => {
                    &&& c@ == spec_encrypted(self.spec_key(), c@.take(NONCE_LEN as int), data@)
                    &&& c@.len() == NONCE_LEN + data@.len() + TAG_LEN
                    &&& spec_decrypted(self.spec_key(), c@) == Some(data@)
                },
                Err(SecurityError::EncryptionError(m)) => m@ == "Failed to generate nonce"@
                    || (data@.len() > AES_GCM_MAX_INPUT && m@ == "Encryption failed"@),
                Err(_) => false,
            },
    {
        let nonce = random_nonce(&self.rng);
        let r = self.encrypt_with_nonce(nonce, data);
        proof {
            if r is Ok {
                assert(r->Ok_0@.take(NONCE_LEN as int) == nonce->0@);
            }
        }
        r
    }

    /// Decrypts data produced by `encrypt` under this manager's key.
    pub fn decrypt(&self, data: &[u8]) -> (r: Result<Vec<u8>, SecurityError>)
        ensures
            match spec_decrypted(self.spec_key(), data@) {
                Some(p) => (r matches Ok(v) && v@ == p),
                None => (r matches Err(SecurityError::EncryptionError(m)) && m@ == (if data@.len() < NONCE_LEN {
                    "Invalid encrypted data: too short"@
                } else {
                    "Decryption failed"@
                })),
            },
    {
        if data.len() < NONCE_LEN {
            return Err(SecurityError::EncryptionError("Invalid encrypted data: too short".to_owned()));
        }
        let nonce = copy_range(data, 0, NONCE_LEN);
        let body = copy_range(data, NONCE_LEN, data.len());
        assert(nonce@ == data@.take(NONCE_LEN as int));
        assert(body@ == data@.skip(NONCE_LEN as int));
        match open(&self.key_bytes, nonce.as_slice(), body.as_slice()) {
            Some(p) => Ok(p),
            None => Err(SecurityError::EncryptionError("Decryption failed".to_owned())),
        }
    }
}

} // verus!
