//! The entropy and derivation engine: fresh random scalars for new keys,
//! and deterministic derivation of a chain-typed private key from a BIP39
//! mnemonic phrase along the chain's standard BIP44 path
//! `m/44'/{coin}'/0'/0/{index}`.

use vstd::prelude::*;
use crate::{Chain, KeystoreError};
use crate::crypto::{
    mnemonic_check, mnemonic_seed, hd_derive, random_bytes, scalar_ok,
    mnemonic_valid, seed_of, hd_key_of, valid_scalar,
};

verus! {

/// The BIP44 coin type of a chain.
pub open spec fn coin_type(chain: Chain) -> int {
    match chain {
        Chain::Cosmos => 118,
        Chain::Ethereum => 60,
    }
}

/// The hardened-child offset.
pub open spec fn hardened(n: int) -> int {
    n + 2147483648
}

/// The number of blank-separated words in a phrase.
pub open spec fn spec_word_count(s: Seq<u8>) -> int
    decreases s.len(),
{
    if s.len() == 0 {
        0
    } else {
        spec_word_count(s.drop_last()) + if s.last() != 32 && (s.len() == 1 || s[s.len() - 2]
            == 32) {
            1int
        } else {
            0int
        }
    }
}

/// The word counts BIP39 allows.
pub open spec fn word_count_ok(n: int) -> bool {
    n == 12 || n == 15 || n == 18 || n == 21 || n == 24
}

/// What mnemonic derivation yields: the leaf private key of the chain's
/// BIP44 path under the given account index, or `None` when the phrase
/// has a disallowed word count, fails BIP39 validation, or a derivation
/// step fails.
pub open spec fn spec_derive(phrase: Seq<u8>, chain: Chain, index: int) -> Option<Seq<u8>> {
    if word_count_ok(spec_word_count(phrase)) && mnemonic_valid(phrase) {
        hd_key_of(
            seed_of(phrase),
            hardened(44),
            hardened(coin_type(chain)),
            hardened(0),
            0,
            index,
        )
    } else {
        None
    }
}

/// The ASCII decimal digits of a non-negative number.
pub open spec fn dec_digits(n: int) -> Seq<u8>
    decreases n,
{
    if n < 10 {
        seq![(48 + if n >= 0 { n } else { 0 }) as u8]
    } else {
        dec_digits(n / 10) + seq![(48 + n % 10) as u8]
    }
}

/// The textual derivation path `m/44'/{coin}'/0'/0/{index}` recorded for
/// a derived key.
pub open spec fn spec_path(chain: Chain, index: int) -> Seq<u8> {
    seq![109u8, 47u8] + dec_digits(44) + seq![39u8, 47u8] + dec_digits(coin_type(chain)) + seq![
        39u8,
        47u8,
        48u8,
        39u8,
        47u8,
        48u8,
        47u8,
    ] + dec_digits(index)
}

/// Counts the blank-separated words of a phrase.
pub fn count_words(phrase: &[u8]) -> (r: usize)
    ensures
        r == spec_word_count(phrase@),
{
    let mut count: usize = 0;
    let mut i: usize = 0;
    while i < phrase.len()
        invariant
            i <= phrase@.len(),
            count == spec_word_count(phrase@.take(i as int)),
            count <= i,
        decreases phrase@.len() - i,
    {
        proof {
            let pre = phrase@.take(i as int);
            let post = phrase@.take(i as int + 1);
            assert(post.drop_last() =~= pre);
            assert(post.last() == phrase@[i as int]);
        }
        if phrase[i] != 32 && (i == 0 || phrase[i - 1] == 32) {
            count += 1;
        }
        i += 1;
    }
    proof {
        assert(phrase@.take(phrase@.len() as int) =~= phrase@);
    }
    count
}

/// The ASCII decimal rendering of a number.
fn u32_to_dec(n: u32) -> (r: Vec<u8>)
    ensures
        r@ == dec_digits(n as int),
    decreases n,
{
    if n < 10 {
        let mut v: Vec<u8> = Vec::new();
        v.push(48 + (n as u8));
        proof {
            assert(v@ =~= dec_digits(n as int));
        }
        v
    } else {
        let mut v = u32_to_dec(n / 10);
        v.push(48 + ((n % 10) as u8));
        proof {
            assert(v@ =~= dec_digits(n as int));
        }
        v
    }
}

/// Builds the textual BIP44 path for a chain and account index.
fn build_path(chain: Chain, index: u32) -> (r: Vec<u8>)
    ensures
        r@ == spec_path(chain, index as int),
{
    let coin: u32 = match chain {
        Chain::Cosmos => 118,
        Chain::Ethereum => 60,
    };
    let mut v: Vec<u8> = Vec::new();
    v.push(109);
    v.push(47);
    let mut part = u32_to_dec(44);
    v.append(&mut part);
    v.push(39);
    v.push(47);
    let mut part2 = u32_to_dec(coin);
    v.append(&mut part2);
    v.push(39);
    v.push(47);
    v.push(48);
    v.push(39);
    v.push(47);
    v.push(48);
    v.push(47);
    let mut part3 = u32_to_dec(index);
    v.append(&mut part3);
    proof {
        assert(v@ =~= spec_path(chain, index as int));
    }
    v
}

/// Derives the chain's leaf private key and its textual path from a
/// mnemonic phrase. The result is a function of the phrase, chain and
/// account index alone: rerunning with identical inputs yields the
/// identical key, which is how a user recovers a key after deletion.
/// Fails with `InvalidMnemonic`, before any store interaction, exactly
/// when the phrase or a derivation step is rejected.
pub fn derive_from_mnemonic(phrase: &[u8], chain: Chain, index: u32) -> (r: Result<
    (Vec<u8>, Vec<u8>),
    KeystoreError,
>)
    requires
        index < 2147483648,
    ensures
        r is Ok <==> spec_derive(phrase@, chain, index as int) is Some,
        r matches Ok(p) ==> Some(p.0@) == spec_derive(phrase@, chain, index as int) && p.1@
            == spec_path(chain, index as int) && p.0@.len() == 32 && valid_scalar(p.0@),
        r is Err ==> r == Err::<(Vec<u8>, Vec<u8>), KeystoreError>(KeystoreError::InvalidMnemonic),
{
    let wc = count_words(phrase);
    if !(wc == 12 || wc == 15 || wc == 18 || wc == 21 || wc == 24) {
        return Err(KeystoreError::InvalidMnemonic);
    }
    if !mnemonic_check(phrase) {
        return Err(KeystoreError::InvalidMnemonic);
    }
    let seed = mnemonic_seed(phrase);
    let coin: u32 = match chain {
        Chain::Cosmos => 118,
        Chain::Ethereum => 60,
    };
    let h: u32 = 2147483648;
    match hd_derive(seed.as_slice(), h + 44, h + coin, h, 0, index) {
        None => Err(KeystoreError::InvalidMnemonic),
        Some(key) => {
            let path = build_path(chain, index);
            Ok((key, path))
        },
    }
}

/// Law: mnemonic derivation is deterministic. Two runs on the same
/// phrase, chain and account index succeed or fail together, and on
/// success yield the identical private key and path.
pub fn derive_from_mnemonic_twice(phrase: &[u8], chain: Chain, index: u32) -> (r: (
    Result<(Vec<u8>, Vec<u8>), KeystoreError>,
    Result<(Vec<u8>, Vec<u8>), KeystoreError>,
))
    requires
        index < 2147483648,
    ensures
        r.0 is Ok <==> r.1 is Ok,
        r.0 matches Ok(a) ==> (r.1 matches Ok(b) && a.0@ == b.0@ && a.1@ == b.1@),
        r.0 is Err ==> r.0 == r.1,
{
    let first = derive_from_mnemonic(phrase, chain, index);
    let second = derive_from_mnemonic(phrase, chain, index);
    (first, second)
}

/// Draws a fresh random scalar valid for the curve, retrying the
/// negligible rejections; fails with `EntropySourceError` when the
/// system random source is unavailable.
pub fn generate_random() -> (r: Result<Vec<u8>, KeystoreError>)
    ensures
        r matches Ok(k) ==> k@.len() == 32 && valid_scalar(k@),
        r is Err ==> r == Err::<Vec<u8>, KeystoreError>(KeystoreError::EntropySourceError),
{
    let mut attempts: usize = 0;
    while attempts < 256
        invariant
            attempts <= 256,
        decreases 256 - attempts,
    {
        match random_bytes(32) {
            None => {
                return Err(KeystoreError::EntropySourceError);
            },
            Some(candidate) => {
                if scalar_ok(candidate.as_slice()) {
                    return Ok(candidate);
                }
            },
        }
        attempts += 1;
    }
    Err(KeystoreError::EntropySourceError)
}

} // verus!
