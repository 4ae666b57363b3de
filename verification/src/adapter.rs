//! Chain adapters: the capability set each supported chain implements —
//! public key computation from a private scalar, chain-native address
//! encoding of a public key, and the canonical fixed-width serialization
//! of private key material. Cosmos addresses are the bech32 encoding of a
//! SHA-256-then-RIPEMD-160 hash of the compressed public key; Ethereum
//! addresses are the EIP-55 checksum-cased hex of the trailing 20 bytes of
//! the Keccak-256 of the uncompressed public key.

use vstd::prelude::*;
use crate::Chain;
use crate::crypto::{
    sha256, ripemd160, keccak256, bech32_encode, secp_pub, scalar_ok,
    sha256_of, ripemd160_of, keccak256_of, bech32_of, valid_hrp, secp_pub_of, valid_scalar,
};

verus! {

/// The ASCII byte of a nibble's lowercase hex digit.
pub open spec fn hex_digit(n: u8) -> u8 {
    if n < 10 {
        (48 + n) as u8
    } else {
        (87 + n) as u8
    }
}

/// Lowercase hex encoding (ASCII bytes) of a byte sequence.
pub open spec fn spec_hex_lower(data: Seq<u8>) -> Seq<u8> {
    Seq::new(
        data.len() * 2,
        |i: int|
            if i % 2 == 0 {
                hex_digit(data[i / 2] / 16)
            } else {
                hex_digit(data[i / 2] % 16)
            },
    )
}

/// The `i`-th nibble of a byte sequence, high nibble first.
pub open spec fn nibble_at(h: Seq<u8>, i: int) -> u8 {
    if i % 2 == 0 {
        h[i / 2] / 16
    } else {
        h[i / 2] % 16
    }
}

/// EIP-55 casing of one lowercase hex digit `c` under hash nibble `n`.
pub open spec fn checksum_case(c: u8, n: u8) -> u8 {
    if 97 <= c && c <= 102 && n >= 8 {
        (c - 32) as u8
    } else {
        c
    }
}

/// EIP-55 checksum-cased hex (ASCII bytes) of raw address bytes.
pub open spec fn spec_eth_checksum(addr: Seq<u8>) -> Seq<u8> {
    Seq::new(
        addr.len() * 2,
        |i: int|
            checksum_case(
                spec_hex_lower(addr)[i],
                nibble_at(keccak256_of(spec_hex_lower(addr)), i),
            ),
    )
}

/// The Ethereum address string of an uncompressed SEC1 public key: `0x`
/// followed by the EIP-55 checksum-cased hex of the trailing 20 bytes of
/// the Keccak-256 of the key without its leading 0x04 byte.
pub open spec fn spec_eth_address(pk: Seq<u8>) -> Seq<u8> {
    seq![48u8, 120u8] + spec_eth_checksum(keccak256_of(pk.skip(1)).skip(12))
}

/// The bech32 address of a compressed public key under a human-readable
/// part: hash-then-encode.
pub open spec fn spec_cosmos_address(hrp: Seq<u8>, pk: Seq<u8>) -> Seq<u8> {
    bech32_of(hrp, ripemd160_of(sha256_of(pk)))
}

/// The address prefix for Cosmos records: the ASCII bytes of "cosmos".
pub open spec fn cosmos_hrp() -> Seq<u8> {
    seq![99u8, 111u8, 115u8, 109u8, 111u8, 115u8]
}

/// The SEC1 public key encoding each chain uses: compressed for Cosmos,
/// uncompressed for Ethereum.
pub open spec fn spec_pubkey(chain: Chain, sk: Seq<u8>) -> Seq<u8> {
    match chain {
        Chain::Cosmos => secp_pub_of(sk, true),
        Chain::Ethereum => secp_pub_of(sk, false),
    }
}

/// The byte length of a chain's public key encoding.
pub open spec fn spec_pubkey_len(chain: Chain) -> int {
    match chain {
        Chain::Cosmos => 33,
        Chain::Ethereum => 65,
    }
}

/// The canonical address of a public key on a chain.
pub open spec fn spec_address(chain: Chain, pk: Seq<u8>) -> Seq<u8> {
    match chain {
        Chain::Cosmos => spec_cosmos_address(cosmos_hrp(), pk),
        Chain::Ethereum => spec_eth_address(pk),
    }
}

fn hex_digit_x(n: u8) -> (r: u8)
    requires
        n < 16,
    ensures
        r == hex_digit(n),
{
    if n < 10 {
        48 + n
    } else {
        87 + n
    }
}

/// Copies `data[start..]` into a fresh vector.
fn bytes_tail(data: &[u8], start: usize) -> (r: Vec<u8>)
    requires
        start <= data@.len(),
    ensures
        r@ == data@.skip(start as int),
{
    let mut out: Vec<u8> = Vec::new();
    let mut i: usize = start;
    while i < data.len()
        invariant
            start <= i <= data@.len(),
            out@ == data@.subrange(start as int, i as int),
        decreases data@.len() - i,
    {
        out.push(data[i]);
        i += 1;
        proof {
            assert(out@ =~= data@.subrange(start as int, i as int));
        }
    }
    proof {
        assert(out@ =~= data@.skip(start as int));
    }
    out
}

/// Copies a byte slice into a fresh vector.
pub(crate) fn copy_bytes(data: &[u8]) -> (r: Vec<u8>)
    ensures
        r@ == data@,
{
    let out = bytes_tail(data, 0);
    proof {
        assert(data@.skip(0) =~= data@);
    }
    out
}

/// Lowercase hex encoding of a byte slice.
pub fn hex_lower(data: &[u8]) -> (r: Vec<u8>)
    ensures
        r@ == spec_hex_lower(data@),
{
    let mut out: Vec<u8> = Vec::new();
    let mut i: usize = 0;
    while i < data.len()
        invariant
            i <= data@.len(),
            out@.len() == 2 * i,
            forall|j: int| 0 <= j < out@.len() ==> out@[j] == #[trigger] spec_hex_lower(data@)[j],
        decreases data@.len() - i,
    {
        let b = data[i];
        out.push(hex_digit_x(b / 16));
        out.push(hex_digit_x(b % 16));
        i += 1;
        proof {
            assert forall|j: int| 0 <= j < out@.len() implies out@[j] == #[trigger] spec_hex_lower(
                data@,
            )[j] by {
                if j == 2 * i - 2 {
                    assert(j / 2 == i - 1 && j % 2 == 0);
                } else if j == 2 * i - 1 {
                    assert(j / 2 == i - 1 && j % 2 == 1);
                }
            }
        }
    }
    proof {
        assert(out@ =~= spec_hex_lower(data@));
    }
    out
}

/// Cosmos address computation: hash the compressed public key with
/// SHA-256, then RIPEMD-160, then bech32-encode under `hrp`.
pub(crate) fn cosmos_address(hrp: &[u8], pk: &[u8]) -> (r: Vec<u8>)
    requires
        valid_hrp(hrp@),
        hrp@.len() <= 20,
    ensures
        r@ == spec_cosmos_address(hrp@, pk@),
{
    let h1 = sha256(pk);
    let h2 = ripemd160(h1.as_slice());
    bech32_encode(hrp, h2.as_slice())
}

/// Ethereum address computation: Keccak-256 of the public key body, keep
/// the trailing 20 bytes, hex-encode, and apply EIP-55 checksum casing
/// from a second Keccak-256 over the lowercase hex digits.
pub(crate) fn eth_address(pk: &[u8]) -> (r: Vec<u8>)
    requires
        pk@.len() == 65,
    ensures
        r@ == spec_eth_address(pk@),
{
    let body = bytes_tail(pk, 1);
    let digest = keccak256(body.as_slice());
    let addr20 = bytes_tail(digest.as_slice(), 12);
    let lower = hex_lower(addr20.as_slice());
    let h = keccak256(lower.as_slice());
    let mut cs: Vec<u8> = Vec::new();
    let mut i: usize = 0;
    while i < 40
        invariant
            addr20@.len() == 20,
            lower@ == spec_hex_lower(addr20@),
            h@ == keccak256_of(lower@),
            h@.len() == 32,
            i <= 40,
            cs@.len() == i,
            forall|j: int| 0 <= j < i ==> cs@[j] == #[trigger] spec_eth_checksum(addr20@)[j],
        decreases 40 - i,
    {
        let c = lower[i];
        let hb = h[i / 2];
        let n = if i % 2 == 0 {
            hb / 16
        } else {
            hb % 16
        };
        let cc = if 97 <= c && c <= 102 && n >= 8 {
            c - 32
        } else {
            c
        };
        cs.push(cc);
        i += 1;
    }
    let mut out: Vec<u8> = Vec::new();
    out.push(48);
    out.push(120);
    out.append(&mut cs);
    proof {
        assert(out@ =~= spec_eth_address(pk@));
    }
    out
}

/// Computes the chain's public key encoding of a private scalar: compressed
/// SEC1 for Cosmos, uncompressed for Ethereum. Succeeds exactly on valid
/// secp256k1 scalars.
pub fn public_key_from_private(chain: Chain, sk: &[u8]) -> (r: Option<Vec<u8>>)
    ensures
        r is Some <==> valid_scalar(sk@),
        r matches Some(p) ==> p@ == spec_pubkey(chain, sk@) && p@.len() == spec_pubkey_len(chain),
{
    if !scalar_ok(sk) {
        return None;
    }
    match chain {
        Chain::Cosmos => Some(secp_pub(sk, true)),
        Chain::Ethereum => Some(secp_pub(sk, false)),
    }
}

fn cosmos_hrp_vec() -> (r: Vec<u8>)
    ensures
        r@ == cosmos_hrp(),
{
    let mut v: Vec<u8> = Vec::new();
    v.push(99);
    v.push(111);
    v.push(115);
    v.push(109);
    v.push(111);
    v.push(115);
    proof {
        assert(v@ =~= cosmos_hrp());
    }
    v
}

/// The fixed "cosmos" prefix is a well-formed human-readable part.
proof fn lemma_cosmos_hrp_valid()
    ensures
        valid_hrp(cosmos_hrp()),
{
    let h = cosmos_hrp();
    assert(h.len() == 6);
    assert(h[0] == 99 && h[1] == 111 && h[2] == 115 && h[3] == 109 && h[4] == 111 && h[5] == 115);
    assert(forall|i: int| 0 <= i < h.len() ==> 33 <= #[trigger] h[i] <= 126);
    assert(forall|j: int| 0 <= j < h.len() ==> !(65 <= #[trigger] h[j] <= 90));
}

/// Computes the canonical chain-native address of a public key.
pub fn address_from_public_key(chain: Chain, pk: &[u8]) -> (r: Vec<u8>)
    requires
        pk@.len() == spec_pubkey_len(chain),
    ensures
        r@ == spec_address(chain, pk@),
{
    match chain {
        Chain::Cosmos => {
            proof {
                lemma_cosmos_hrp_valid();
            }
            let hrp = cosmos_hrp_vec();
            cosmos_address(hrp.as_slice(), pk)
        },
        Chain::Ethereum => eth_address(pk),
    }
}

/// The canonical fixed-width serialization of a private key: the 32 scalar
/// bytes themselves, for both supported chains.
pub fn serialize_private_key(sk: &[u8]) -> (r: Vec<u8>)
    requires
        sk@.len() == 32,
    ensures
        r@ == sk@,
{
    let out = bytes_tail(sk, 0);
    proof {
        assert(sk@.skip(0) =~= sk@);
    }
    out
}

/// Recovers a private key from its canonical serialization: exactly the
/// 32-byte encodings of valid scalars are accepted.
pub fn deserialize_private_key(data: &[u8]) -> (r: Option<Vec<u8>>)
    ensures
        r is Some <==> data@.len() == 32 && valid_scalar(data@),
        r matches Some(k) ==> k@ == data@,
{
    if data.len() != 32 {
        return None;
    }
    if !scalar_ok(data) {
        return None;
    }
    let out = bytes_tail(data, 0);
    proof {
        assert(data@.skip(0) =~= data@);
    }
    Some(out)
}

} // verus!
