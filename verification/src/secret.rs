//! The secret codec: at-rest encryption of private key material. A
//! passphrase is stretched with scrypt under a fresh random salt, and the
//! serialized private key is sealed with AES-256-GCM under a fresh random
//! nonce. The blob carries salt, nonce and the KDF cost parameters, so it
//! stays decodable if the default costs ever change.

use vstd::prelude::*;
use crate::KeystoreError;
use crate::crypto::{kdf, kdf_of, aead_seal, aead_open, open_of, random_bytes};

verus! {

/// Default scrypt cost parameters for newly encrypted secrets.
pub const DEFAULT_LOG_N: u8 = 15;
pub const DEFAULT_COST_R: u32 = 8;
pub const DEFAULT_COST_P: u32 = 1;

/// An encrypted private key together with everything needed to decrypt it
/// again: the KDF salt and cost parameters and the AEAD nonce. The
/// ciphertext carries its authentication tag.
pub struct EncryptedSecret {
    pub salt: Vec<u8>,
    pub nonce: Vec<u8>,
    pub log_n: u8,
    pub cost_r: u32,
    pub cost_p: u32,
    pub ct: Vec<u8>,
}

impl EncryptedSecret {
    /// Structural well-formedness: the sizes every blob written by
    /// `encrypt` has (a 32-byte key plus a 16-byte tag).
    pub open spec fn wf(&self) -> bool {
        self.salt@.len() == 16 && self.nonce@.len() == 12 && self.ct@.len() == 48
    }

    /// The KDF cost parameters this library accepts.
    pub open spec fn params_supported(&self) -> bool {
        self.log_n <= 20 && 0 < self.cost_r <= 8 && 0 < self.cost_p <= 4
    }

    /// What this blob decrypts to under `pass`: the AEAD opening of the
    /// ciphertext under the key derived from `pass` and the stored salt
    /// and cost parameters.
    pub open spec fn spec_decrypt(&self, pass: Seq<u8>) -> Option<Seq<u8>> {
        open_of(
            kdf_of(pass, self.salt@, self.log_n as int, self.cost_r as int, self.cost_p as int),
            self.nonce@,
            self.ct@,
        )
    }
}

/// Encrypts a serialized 32-byte private key under a passphrase, with a
/// fresh random salt and nonce. The result decrypts to exactly `sk` under
/// the same passphrase; the only failure is an unavailable entropy source.
pub fn encrypt(sk: &[u8], pass: &[u8]) -> (r: Result<EncryptedSecret, KeystoreError>)
    requires
        sk@.len() == 32,
    ensures
        r matches Ok(es) ==> es.wf() && es.params_supported()
            && es.spec_decrypt(pass@) == Some(sk@),
        r is Err ==> r == Err::<EncryptedSecret, KeystoreError>(KeystoreError::EntropySourceError),
{
    let salt = match random_bytes(16) {
        Some(s) => s,
        None => {
            return Err(KeystoreError::EntropySourceError);
        },
    };
    let nonce = match random_bytes(12) {
        Some(n) => n,
        None => {
            return Err(KeystoreError::EntropySourceError);
        },
    };
    let key_opt = kdf(pass, salt.as_slice(), DEFAULT_LOG_N, DEFAULT_COST_R, DEFAULT_COST_P);
    let key = key_opt.unwrap();
    let ct = aead_seal(key.as_slice(), nonce.as_slice(), sk);
    Ok(EncryptedSecret {
        salt,
        nonce,
        log_n: DEFAULT_LOG_N,
        cost_r: DEFAULT_COST_R,
        cost_p: DEFAULT_COST_P,
        ct,
    })
}

/// Decrypts a blob under a passphrase. Success is owed whenever the blob
/// decrypts under this passphrase and its cost parameters are supported;
/// a wrong passphrase, corrupted blob or unsupported parameters all fail
/// with `DecryptionFailed` and nothing else.
pub fn decrypt(es: &EncryptedSecret, pass: &[u8]) -> (r: Result<Vec<u8>, KeystoreError>)
    requires
        es.wf(),
    ensures
        r matches Ok(k) ==> es.spec_decrypt(pass@) == Some(k@),
        r is Err ==> r == Err::<Vec<u8>, KeystoreError>(KeystoreError::DecryptionFailed),
        es.params_supported() && es.spec_decrypt(pass@) is Some ==> r is Ok,
        es.spec_decrypt(pass@) is None ==> r is Err,
{
    let key = match kdf(pass, es.salt.as_slice(), es.log_n, es.cost_r, es.cost_p) {
        Some(k) => k,
        None => {
            return Err(KeystoreError::DecryptionFailed);
        },
    };
    match aead_open(key.as_slice(), es.nonce.as_slice(), es.ct.as_slice()) {
        Some(m) => Ok(m),
        None => Err(KeystoreError::DecryptionFailed),
    }
}

} // verus!
