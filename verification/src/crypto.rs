//! Trusted boundary to the cryptographic primitives this keystore is built
//! on: hashing, bech32 encoding, secp256k1 point computation, BIP39 mnemonic
//! handling, BIP32 hierarchical derivation, the scrypt KDF, AES-256-GCM
//! authenticated encryption, and the operating system's entropy source.
//!
//! Every function here is an `external_body` wrapper around a single outside
//! call; the uninterpreted spec functions name results that are deterministic
//! functions of the arguments but far too large to state directly.

use vstd::prelude::*;
use aes_gcm::aead::Aead;
use aes_gcm::KeyInit;
use k256::elliptic_curve::sec1::ToSec1Point;
use rand::rand_core::TryRng;
use sha2::Digest;

verus! {

/// The SHA-256 digest of a byte sequence.
pub uninterp spec fn sha256_of(data: Seq<u8>) -> Seq<u8>;

/// The Keccak-256 digest of a byte sequence.
pub uninterp spec fn keccak256_of(data: Seq<u8>) -> Seq<u8>;

/// The RIPEMD-160 digest of a byte sequence.
pub uninterp spec fn ripemd160_of(data: Seq<u8>) -> Seq<u8>;

/// Whether a byte sequence is a well-formed bech32 human-readable part,
/// exactly as bech32's `Hrp::parse` checks it: 1 to 83 bytes, each ASCII
/// 33..=126, without mixing lower and upper case.
pub open spec fn valid_hrp(hrp: Seq<u8>) -> bool {
    &&& 1 <= hrp.len() <= 83
    &&& forall|i: int| 0 <= i < hrp.len() ==> 33 <= #[trigger] hrp[i] <= 126
    &&& !((exists|i: int| 0 <= i < hrp.len() && 97 <= #[trigger] hrp[i] <= 122) && (exists|j: int|
        0 <= j < hrp.len() && 65 <= #[trigger] hrp[j] <= 90))
}

/// The bech32 encoding (ASCII bytes) of `data` under the human-readable
/// part `hrp`.
pub uninterp spec fn bech32_of(hrp: Seq<u8>, data: Seq<u8>) -> Seq<u8>;

/// Whether k256's `SecretKey::from_slice` accepts these bytes as a
/// non-zero secp256k1 secret scalar. For the 32-byte slices this library
/// passes, that is exactly the canonical valid scalar encodings; shorter
/// slices down to 24 bytes are accepted left-zero-padded.
pub uninterp spec fn valid_scalar(sk: Seq<u8>) -> bool;

/// The SEC1 encoding (compressed when `compressed`) of the secp256k1 public
/// point of the secret scalar `sk`.
pub uninterp spec fn secp_pub_of(sk: Seq<u8>, compressed: bool) -> Seq<u8>;

/// Whether a byte sequence is a valid BIP39 mnemonic phrase (word count,
/// wordlist membership and checksum all correct).
pub uninterp spec fn mnemonic_valid(phrase: Seq<u8>) -> bool;

/// The 64-byte BIP39 seed of a valid mnemonic phrase, with an empty
/// passphrase.
pub uninterp spec fn seed_of(phrase: Seq<u8>) -> Seq<u8>;

/// The private key that BIP32 derivation yields from `seed` along the five
/// child numbers `n1` through `n5` (hardened flags included), or `None` when
/// a derivation step fails.
pub uninterp spec fn hd_key_of(seed: Seq<u8>, n1: int, n2: int, n3: int, n4: int, n5: int) -> Option<Seq<u8>>;

/// The 32-byte scrypt key derived from a passphrase and salt under the cost
/// parameters `log_n`, `cost_r`, `cost_p`.
pub uninterp spec fn kdf_of(pass: Seq<u8>, salt: Seq<u8>, log_n: int, cost_r: int, cost_p: int) -> Seq<u8>;

/// The AES-256-GCM ciphertext (with appended tag) of `msg` under `key` and
/// `nonce`.
pub uninterp spec fn seal_of(key: Seq<u8>, nonce: Seq<u8>, msg: Seq<u8>) -> Seq<u8>;

/// The AES-256-GCM decryption of `ct` under `key` and `nonce`: `None` when
/// authentication fails.
pub uninterp spec fn open_of(key: Seq<u8>, nonce: Seq<u8>, ct: Seq<u8>) -> Option<Seq<u8>>;

/// Relies on sha2's `Sha256::digest`: a 32-byte digest determined by the
/// input alone.
#[verifier::external_body]
pub(crate) fn sha256(data: &[u8]) -> (r: Vec<u8>)
    ensures
        r@ == sha256_of(data@),
        r@.len() == 32,
{
    sha2::Sha256::digest(data).to_vec()
}

/// Relies on sha3's `Keccak256::digest`: a 32-byte digest determined by the
/// input alone.
#[verifier::external_body]
pub(crate) fn keccak256(data: &[u8]) -> (r: Vec<u8>)
    ensures
        r@ == keccak256_of(data@),
        r@.len() == 32,
{
    sha3::Keccak256::digest(data).to_vec()
}

/// Relies on ripemd's `Ripemd160::digest`: a 20-byte digest determined by
/// the input alone.
#[verifier::external_body]
pub(crate) fn ripemd160(data: &[u8]) -> (r: Vec<u8>)
    ensures
        r@ == ripemd160_of(data@),
        r@.len() == 20,
{
    ripemd::Ripemd160::digest(data).to_vec()
}

/// Relies on bech32's `Hrp::parse` and `encode` with the Bech32 checksum:
/// `parse` accepts exactly the `valid_hrp` byte sequences, and `encode` is
/// deterministic in `hrp` and `data` and cannot exceed the code length for
/// 20 bytes of data under a short human-readable part.
#[verifier::external_body]
pub(crate) fn bech32_encode(hrp: &[u8], data: &[u8]) -> (r: Vec<u8>)
    requires
        valid_hrp(hrp@),
        hrp@.len() <= 20,
        data@.len() == 20,
    ensures
        r@ == bech32_of(hrp@, data@),
{
    let h = bech32::Hrp::parse(core::str::from_utf8(hrp).unwrap()).unwrap();
    bech32::encode::<bech32::Bech32>(h, data).unwrap().into_bytes()
}

/// Relies on k256's `SecretKey::from_slice`: succeeds exactly on the byte
/// slices it accepts as valid non-zero secret scalars (all callers here
/// pass 32 bytes, where that is the canonical scalar encoding).
#[verifier::external_body]
pub(crate) fn scalar_ok(sk: &[u8]) -> (r: bool)
    ensures
        r == valid_scalar(sk@),
{
    k256::SecretKey::from_slice(sk).is_ok()
}

/// Relies on k256's `SecretKey::public_key` and SEC1 `to_sec1_point`:
/// the public point is determined by the scalar; the compressed encoding is
/// 33 bytes, the uncompressed one 65 bytes with leading byte 0x04.
#[verifier::external_body]
pub(crate) fn secp_pub(sk: &[u8], compressed: bool) -> (r: Vec<u8>)
    requires
        valid_scalar(sk@),
    ensures
        r@ == secp_pub_of(sk@, compressed),
        compressed ==> r@.len() == 33,
        !compressed ==> r@.len() == 65 && r@[0] == 4u8,
{
    let key = k256::SecretKey::from_slice(sk).unwrap();
    key.public_key().to_sec1_point(compressed).as_bytes().to_vec()
}

/// Relies on bip39's `Mnemonic::parse`: accepts exactly the phrases with a
/// supported word count, known words and a correct checksum.
#[verifier::external_body]
pub(crate) fn mnemonic_check(phrase: &[u8]) -> (r: bool)
    ensures
        r == mnemonic_valid(phrase@),
{
    match core::str::from_utf8(phrase) {
        Ok(s) => bip39::Mnemonic::parse(s).is_ok(),
        Err(_) => false,
    }
}

/// Relies on bip39's `Mnemonic::to_seed` with an empty passphrase: a
/// 64-byte seed determined by the phrase alone.
#[verifier::external_body]
pub(crate) fn mnemonic_seed(phrase: &[u8]) -> (r: Vec<u8>)
    requires
        mnemonic_valid(phrase@),
    ensures
        r@ == seed_of(phrase@),
        r@.len() == 64,
{
    let m = bip39::Mnemonic::parse(core::str::from_utf8(phrase).unwrap()).unwrap();
    m.to_seed("").to_vec()
}

/// Relies on bip32's `XPrv::new` and `ExtendedPrivateKey::derive_child`:
/// the derived key is determined by the seed and the five child numbers,
/// and on success is a valid 32-byte secp256k1 secret scalar.
#[verifier::external_body]
pub(crate) fn hd_derive(seed: &[u8], n1: u32, n2: u32, n3: u32, n4: u32, n5: u32) -> (r: Option<Vec<u8>>)
    requires
        seed@.len() == 64,
    ensures
        r is Some <==> hd_key_of(seed@, n1 as int, n2 as int, n3 as int, n4 as int, n5 as int) is Some,
        r matches Some(k) ==> k@ == hd_key_of(seed@, n1 as int, n2 as int, n3 as int, n4 as int, n5 as int)->0
            && k@.len() == 32 && valid_scalar(k@),
{
    let key = bip32::XPrv::new(seed)
        .and_then(|k| k.derive_child(bip32::ChildNumber(n1)))
        .and_then(|k| k.derive_child(bip32::ChildNumber(n2)))
        .and_then(|k| k.derive_child(bip32::ChildNumber(n3)))
        .and_then(|k| k.derive_child(bip32::ChildNumber(n4)))
        .and_then(|k| k.derive_child(bip32::ChildNumber(n5)));
    match key {
        Ok(k) => Some(k.to_bytes().to_vec()),
        Err(_) => None,
    }
}

/// Relies on scrypt's `Params::new` and `scrypt`: derivation is
/// deterministic in passphrase, salt and cost parameters; parameter
/// validation accepts at least the moderate costs stated below; the output
/// length 32 is always accepted.
#[verifier::external_body]
pub(crate) fn kdf(pass: &[u8], salt: &[u8], log_n: u8, cost_r: u32, cost_p: u32) -> (r: Option<Vec<u8>>)
    ensures
        r matches Some(k) ==> k@ == kdf_of(pass@, salt@, log_n as int, cost_r as int, cost_p as int)
            && k@.len() == 32,
        log_n <= 20 && 0 < cost_r <= 8 && 0 < cost_p <= 4 ==> r is Some,
{
    let params = match scrypt::Params::new(log_n, cost_r, cost_p) {
        Ok(p) => p,
        Err(_) => return None,
    };
    let mut out = vec![0u8; 32];
    match scrypt::scrypt(pass, salt, &params, &mut out) {
        Ok(()) => Some(out),
        Err(_) => None,
    }
}

/// Relies on aes-gcm's `Aes256Gcm` `encrypt`: deterministic in key, nonce
/// and message, appends a 16-byte tag, and `decrypt` with the same key and
/// nonce recovers the message.
#[verifier::external_body]
pub(crate) fn aead_seal(key: &[u8], nonce: &[u8], msg: &[u8]) -> (r: Vec<u8>)
    requires
        key@.len() == 32,
        nonce@.len() == 12,
        msg@.len() <= 1024,
    ensures
        r@ == seal_of(key@, nonce@, msg@),
        r@.len() == msg@.len() + 16,
        open_of(key@, nonce@, r@) == Some(msg@),
{
    let key_arr: [u8; 32] = key.try_into().unwrap();
    let nonce_arr: [u8; 12] = nonce.try_into().unwrap();
    let cipher = aes_gcm::Aes256Gcm::new(&aes_gcm::Key::<aes_gcm::Aes256Gcm>::from(key_arr));
    cipher.encrypt(&aes_gcm::Nonce::from(nonce_arr), msg).unwrap()
}

/// Relies on aes-gcm's `Aes256Gcm` `decrypt`: deterministic in key, nonce
/// and ciphertext, and fails exactly when tag authentication fails.
#[verifier::external_body]
pub(crate) fn aead_open(key: &[u8], nonce: &[u8], ct: &[u8]) -> (r: Option<Vec<u8>>)
    requires
        key@.len() == 32,
        nonce@.len() == 12,
    ensures
        r is Some <==> open_of(key@, nonce@, ct@) is Some,
        r matches Some(m) ==> m@ == open_of(key@, nonce@, ct@)->0,
{
    let key_arr: [u8; 32] = key.try_into().unwrap();
    let nonce_arr: [u8; 12] = nonce.try_into().unwrap();
    let cipher = aes_gcm::Aes256Gcm::new(&aes_gcm::Key::<aes_gcm::Aes256Gcm>::from(key_arr));
    match cipher.decrypt(&aes_gcm::Nonce::from(nonce_arr), ct) {
        Ok(m) => Some(m),
        Err(_) => None,
    }
}

/// Relies on getrandom's `SysRng::try_fill_bytes` (via rand): fills the
/// buffer from the operating system's entropy source, or reports that the
/// source is unavailable. Nothing is promised of the bytes themselves.
#[verifier::external_body]
pub(crate) fn random_bytes(n: usize) -> (r: Option<Vec<u8>>)
    ensures
        r matches Some(b) ==> b@.len() == n,
{
    let mut buf = vec![0u8; n];
    match rand::rngs::SysRng.try_fill_bytes(&mut buf) {
        Ok(()) => Some(buf),
        Err(_) => None,
    }
}

} // verus!
