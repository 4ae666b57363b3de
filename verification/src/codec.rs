//! The on-disk encoding of a key record: a self-describing binary layout
//! — chain tag, then length-prefixed name, public key, optional
//! derivation path, salt, nonce, the KDF cost parameters, and the
//! ciphertext. Decoding accepts exactly the encodings this module
//! produces: whatever parses is the one record that encodes to those
//! bytes, and anything else is reported as a corrupt record.

use vstd::prelude::*;
use crate::{Chain, KeystoreError};
use crate::record::KeyRecord;
use crate::secret::EncryptedSecret;
use crate::store::{RecordStore, rec_key_at, recs_contain};

verus! {

/// The four little-endian bytes of a 32-bit length.
pub open spec fn le4(n: int) -> Seq<u8> {
    seq![
        (n % 256) as u8,
        ((n / 256) % 256) as u8,
        ((n / 65536) % 256) as u8,
        ((n / 16777216) % 256) as u8,
    ]
}

/// A length-prefixed byte field.
pub open spec fn enc_bytes(b: Seq<u8>) -> Seq<u8> {
    le4(b.len() as int) + b
}

/// The value of the four little-endian bytes at `pos`.
pub open spec fn val4(b: Seq<u8>, pos: int) -> int {
    b[pos] + 256 * b[pos + 1] + 65536 * b[pos + 2] + 16777216 * b[pos + 3]
}

/// The position just past the length-prefixed field starting at `pos`,
/// or -1 when no such field fits there.
pub open spec fn field_end(b: Seq<u8>, pos: int) -> int {
    if 0 <= pos && pos + 4 <= b.len() && pos + 4 + val4(b, pos) <= b.len() {
        pos + 4 + val4(b, pos)
    } else {
        -1
    }
}

/// Whether the bytes are a canonical record encoding with a structurally
/// sound secret: exactly the inputs `decode_record` accepts. The
/// positions mirror the layout: tag, name, public key, address, optional
/// path, salt, nonce, cost parameters, ciphertext, nothing after.
pub open spec fn spec_decode_ok(b: Seq<u8>) -> bool {
    let p1 = field_end(b, 1);
    let p2 = field_end(b, p1);
    let p3 = field_end(b, p2);
    let p4 = if 0 <= p3 && p3 < b.len() && b[p3] == 0 {
        p3 + 1
    } else if 0 <= p3 && p3 < b.len() && b[p3] == 1 {
        field_end(b, p3 + 1)
    } else {
        -1
    };
    let p5 = field_end(b, p4);
    let p6 = field_end(b, p5);
    let p7 = if 0 <= p6 && p6 + 9 <= b.len() {
        p6 + 9
    } else {
        -1
    };
    let p9 = field_end(b, p7);
    &&& b.len() >= 1
    &&& (b[0] == 0 || b[0] == 1)
    &&& p9 == b.len()
    &&& p5 == p4 + 4 + 16
    &&& p6 == p5 + 4 + 12
    &&& p9 == p7 + 4 + 48
}

/// The one-byte tag of a chain.
pub open spec fn chain_tag(chain: Chain) -> u8 {
    match chain {
        Chain::Cosmos => 0,
        Chain::Ethereum => 1,
    }
}

/// The canonical encoding of a record.
pub open spec fn spec_encode(rec: KeyRecord) -> Seq<u8> {
    seq![chain_tag(rec.chain)] + enc_bytes(rec.name@) + enc_bytes(rec.public_key@) + enc_bytes(
        rec.address@,
    ) + (
    match rec.derivation_path {
        Some(p) => seq![1u8] + enc_bytes(p@),
        None => seq![0u8],
    }) + enc_bytes(rec.secret.salt@) + enc_bytes(rec.secret.nonce@) + seq![rec.secret.log_n]
        + le4(rec.secret.cost_r as int) + le4(rec.secret.cost_p as int) + enc_bytes(
        rec.secret.ct@,
    )
}

/// Appends the four little-endian bytes of `n`.
fn put_u32(out: &mut Vec<u8>, n: u32)
    ensures
        final(out)@ == old(out)@ + le4(n as int),
{
    out.push((n % 256) as u8);
    out.push(((n / 256) % 256) as u8);
    out.push(((n / 65536) % 256) as u8);
    out.push(((n / 16777216) % 256) as u8);
    proof {
        assert(out@ =~= old(out)@ + le4(n as int));
    }
}

/// Appends a length-prefixed byte field.
fn put_bytes(out: &mut Vec<u8>, b: &[u8])
    requires
        b@.len() < 4294967296,
    ensures
        final(out)@ == old(out)@ + enc_bytes(b@),
{
    put_u32(out, b.len() as u32);
    let mut i: usize = 0;
    while i < b.len()
        invariant
            i <= b@.len(),
            out@ == old(out)@ + le4(b@.len() as int) + b@.subrange(0, i as int),
        decreases b@.len() - i,
    {
        out.push(b[i]);
        i += 1;
        proof {
            assert(out@ =~= old(out)@ + le4(b@.len() as int) + b@.subrange(0, i as int));
        }
    }
    proof {
        assert(b@.subrange(0, b@.len() as int) =~= b@);
        assert(out@ =~= old(out)@ + enc_bytes(b@));
    }
}

/// Encodes a record into its canonical byte form.
pub fn encode_record(rec: &KeyRecord) -> (r: Vec<u8>)
    requires
        rec.name@.len() < 4294967296,
        rec.public_key@.len() < 4294967296,
        rec.address@.len() < 4294967296,
        rec.derivation_path matches Some(p) ==> p@.len() < 4294967296,
        rec.secret.salt@.len() < 4294967296,
        rec.secret.nonce@.len() < 4294967296,
        rec.secret.ct@.len() < 4294967296,
    ensures
        r@ == spec_encode(*rec),
{
    let mut out: Vec<u8> = Vec::new();
    match rec.chain {
        Chain::Cosmos => out.push(0),
        Chain::Ethereum => out.push(1),
    }
    put_bytes(&mut out, rec.name.as_slice());
    put_bytes(&mut out, rec.public_key.as_slice());
    put_bytes(&mut out, rec.address.as_slice());
    match &rec.derivation_path {
        Some(p) => {
            out.push(1);
            put_bytes(&mut out, p.as_slice());
        },
        None => {
            out.push(0);
        },
    }
    put_bytes(&mut out, rec.secret.salt.as_slice());
    put_bytes(&mut out, rec.secret.nonce.as_slice());
    out.push(rec.secret.log_n);
    put_u32(&mut out, rec.secret.cost_r);
    put_u32(&mut out, rec.secret.cost_p);
    put_bytes(&mut out, rec.secret.ct.as_slice());
    proof {
        assert(out@ =~= spec_encode(*rec));
    }
    out
}

/// Reads four little-endian bytes at `pos`.
#[verifier::rlimit(30)]
fn get_u32(buf: &[u8], pos: usize) -> (r: Option<(u32, usize)>)
    requires
        pos <= buf@.len(),
    ensures
        r matches Some(p) ==> p.1 == pos + 4 && pos + 4 <= buf@.len() && buf@.subrange(
            pos as int,
            pos as int + 4,
        ) == le4(p.0 as int) && p.0 == val4(buf@, pos as int),
        r is None <==> pos + 4 > buf@.len(),
{
    if buf.len() - pos < 4 {
        return None;
    }
    let b0 = buf[pos] as u32;
    let b1 = buf[pos + 1] as u32;
    let b2 = buf[pos + 2] as u32;
    let b3 = buf[pos + 3] as u32;
    let n: u32 = b0 + 256 * b1 + 65536 * b2 + 16777216 * b3;
    proof {
        assert(buf@.subrange(pos as int, pos as int + 4) =~= le4(n as int));
    }
    Some((n, pos + 4))
}

/// Reads a length-prefixed byte field at `pos`.
fn get_bytes(buf: &[u8], pos: usize) -> (r: Option<(Vec<u8>, usize)>)
    requires
        pos <= buf@.len(),
    ensures
        r is Some <==> field_end(buf@, pos as int) >= 0,
        r matches Some(p) ==> pos + 4 <= p.1 <= buf@.len() && p.1 == pos + 4 + p.0@.len()
            && p.1 == field_end(buf@, pos as int) && buf@.subrange(pos as int, p.1 as int)
            == enc_bytes(p.0@),
{
    let (n, body) = match get_u32(buf, pos) {
        Some(p) => p,
        None => {
            return None;
        },
    };
    let n = n as usize;
    if buf.len() - body < n {
        return None;
    }
    let end: usize = body + n;
    let mut out: Vec<u8> = Vec::new();
    let mut i: usize = body;
    while i < end
        invariant
            body <= i <= end,
            end == body + n,
            end <= buf@.len(),
            out@ == buf@.subrange(body as int, i as int),
        decreases end - i,
    {
        out.push(buf[i]);
        i += 1;
        proof {
            assert(out@ =~= buf@.subrange(body as int, i as int));
        }
    }
    proof {
        assert(buf@.subrange(pos as int, (body + n) as int) =~= enc_bytes(out@));
    }
    Some((out, body + n))
}


/// Assembles the per-field subrange facts the parser established into
/// the whole-buffer statement: the bytes are exactly the record's
/// canonical encoding.
#[verifier::rlimit(100)]
proof fn lemma_assemble(
    b: Seq<u8>,
    rec: KeyRecord,
    p1: int,
    p2: int,
    p3: int,
    p4: int,
    p5: int,
    p6: int,
    p7: int,
    p8: int,
    p9: int,
)
    requires
        b.len() >= 1,
        b[0] == chain_tag(rec.chain),
        b.subrange(1, p1) == enc_bytes(rec.name@),
        p1 == 5 + rec.name@.len(),
        b.subrange(p1, p2) == enc_bytes(rec.public_key@),
        p2 == p1 + 4 + rec.public_key@.len(),
        b.subrange(p2, p3) == enc_bytes(rec.address@),
        p3 == p2 + 4 + rec.address@.len(),
        (match rec.derivation_path {
            Some(p) => p3 < b.len() && b[p3] == 1 && b.subrange(p3 + 1, p4) == enc_bytes(p@) && p4
                == p3 + 5 + p@.len(),
            None => p3 < b.len() && b[p3] == 0 && p4 == p3 + 1,
        }),
        b.subrange(p4, p5) == enc_bytes(rec.secret.salt@),
        p5 == p4 + 4 + rec.secret.salt@.len(),
        b.subrange(p5, p6) == enc_bytes(rec.secret.nonce@),
        p6 == p5 + 4 + rec.secret.nonce@.len(),
        p6 < b.len(),
        b[p6] == rec.secret.log_n,
        b.subrange(p6 + 1, p7) == le4(rec.secret.cost_r as int),
        p7 == p6 + 5,
        b.subrange(p7, p8) == le4(rec.secret.cost_p as int),
        p8 == p7 + 4,
        b.subrange(p8, p9) == enc_bytes(rec.secret.ct@),
        p9 == p8 + 4 + rec.secret.ct@.len(),
        p9 == b.len(),
    ensures
        b == spec_encode(rec),
{
    let path_piece: Seq<u8> = match &rec.derivation_path {
        Some(p) => seq![1u8] + enc_bytes(p@),
        None => seq![0u8],
    };
    assert(b.subrange(0, 1) =~= seq![chain_tag(rec.chain)]);
    assert(b.subrange(p3, p4) =~= path_piece);
    assert(b.subrange(p6, p6 + 1) =~= seq![rec.secret.log_n]);
    assert(b =~= b.subrange(0, 1) + b.subrange(1, p1) + b.subrange(p1, p2) + b.subrange(p2, p3)
        + b.subrange(p3, p4) + b.subrange(p4, p5) + b.subrange(p5, p6) + b.subrange(p6, p6 + 1)
        + b.subrange(p6 + 1, p7) + b.subrange(p7, p8) + b.subrange(p8, p9));
    assert(b =~= spec_encode(rec));
}

/// Decodes a record from its byte form; fails with `CorruptRecord`
/// exactly when the bytes are not a canonical encoding. Whatever decodes
/// is the one record that encodes to exactly these bytes, with a
/// structurally sound secret.
#[verifier::rlimit(100)]
pub fn decode_record(buf: &[u8]) -> (r: Result<KeyRecord, KeystoreError>)
    ensures
        r is Ok <==> spec_decode_ok(buf@),
        r matches Ok(rec) ==> buf@ == spec_encode(rec) && rec.secret.wf(),
        r is Err ==> r == Err::<KeyRecord, KeystoreError>(KeystoreError::CorruptRecord),
{
    if buf.len() < 1 {
        return Err(KeystoreError::CorruptRecord);
    }
    let chain = match buf[0] {
        0 => Chain::Cosmos,
        1 => Chain::Ethereum,
        _ => {
            return Err(KeystoreError::CorruptRecord);
        },
    };
    let (name, p1) = match get_bytes(buf, 1) {
        Some(p) => p,
        None => {
            return Err(KeystoreError::CorruptRecord);
        },
    };
    let (public_key, p2) = match get_bytes(buf, p1) {
        Some(p) => p,
        None => {
            return Err(KeystoreError::CorruptRecord);
        },
    };
    let (address, p3) = match get_bytes(buf, p2) {
        Some(p) => p,
        None => {
            return Err(KeystoreError::CorruptRecord);
        },
    };
    if p3 >= buf.len() {
        return Err(KeystoreError::CorruptRecord);
    }
    let (derivation_path, p4) = match buf[p3] {
        0 => (None, p3 + 1),
        1 => {
            match get_bytes(buf, p3 + 1) {
                Some((p, q)) => (Some(p), q),
                None => {
                    return Err(KeystoreError::CorruptRecord);
                },
            }
        },
        _ => {
            return Err(KeystoreError::CorruptRecord);
        },
    };
    let (salt, p5) = match get_bytes(buf, p4) {
        Some(p) => p,
        None => {
            return Err(KeystoreError::CorruptRecord);
        },
    };
    let (nonce, p6) = match get_bytes(buf, p5) {
        Some(p) => p,
        None => {
            return Err(KeystoreError::CorruptRecord);
        },
    };
    if p6 >= buf.len() {
        return Err(KeystoreError::CorruptRecord);
    }
    let log_n = buf[p6];
    let (cost_r, p7) = match get_u32(buf, p6 + 1) {
        Some(p) => p,
        None => {
            return Err(KeystoreError::CorruptRecord);
        },
    };
    let (cost_p, p8) = match get_u32(buf, p7) {
        Some(p) => p,
        None => {
            return Err(KeystoreError::CorruptRecord);
        },
    };
    let (ct, p9) = match get_bytes(buf, p8) {
        Some(p) => p,
        None => {
            return Err(KeystoreError::CorruptRecord);
        },
    };
    if p9 != buf.len() {
        return Err(KeystoreError::CorruptRecord);
    }
    if !(salt.len() == 16 && nonce.len() == 12 && ct.len() == 48) {
        return Err(KeystoreError::CorruptRecord);
    }
    let rec = KeyRecord {
        name,
        chain,
        public_key,
        address,
        derivation_path,
        secret: EncryptedSecret { salt, nonce, log_n, cost_r, cost_p, ct },
    };
    proof {
        lemma_assemble(
            buf@,
            rec,
            p1 as int,
            p2 as int,
            p3 as int,
            p4 as int,
            p5 as int,
            p6 as int,
            p7 as int,
            p8 as int,
            p9 as int,
        );
    }
    Ok(rec)
}

/// Every record of `s` is the exact decoding of one of the `blobs`.
pub open spec fn all_from_blobs(s: Seq<KeyRecord>, blobs: Seq<Vec<u8>>) -> bool {
    forall|k: int|
        0 <= k < s.len() ==> exists|q: int|
            0 <= q < blobs.len() && #[trigger] spec_encode(s[k]) == blobs[q]@
}

/// Rebuilds a store from a batch of encoded records — the bytes of the
/// files found in a keystore directory. A blob that fails to parse, or
/// whose key collides with one already loaded, is skipped and counted,
/// never aborting the rest. Every record in the resulting store is the
/// exact decoding of one of the blobs.
/// Whether one blob is accounted for in the loaded records: either some
/// loaded record is its exact decoding, or the record it decodes to
/// collides on `(name, chain)` with a loaded record.
pub open spec fn represented(s: Seq<KeyRecord>, blob: Seq<u8>) -> bool {
    (exists|k: int| 0 <= k < s.len() && #[trigger] spec_encode(s[k]) == blob) || (exists|
        k: int,
        rec: KeyRecord,
    |
        0 <= k < s.len() && blob == spec_encode(rec) && #[trigger] rec_key_at(
            s,
            k,
            rec.name@,
            rec.chain,
        ))
}

/// Every decodable blob among the first `m` is accounted for.
pub open spec fn decodables_represented(s: Seq<KeyRecord>, blobs: Seq<Vec<u8>>, m: int) -> bool {
    forall|q: int|
        0 <= q < m && #[trigger] spec_decode_ok(blobs[q]@) ==> represented(s, blobs[q]@)
}

/// Appending a record keeps every accounted blob accounted.
proof fn lemma_represented_push(s: Seq<KeyRecord>, x: KeyRecord, blob: Seq<u8>)
    requires
        represented(s, blob),
    ensures
        represented(s.push(x), blob),
{
    if exists|k: int| 0 <= k < s.len() && #[trigger] spec_encode(s[k]) == blob {
        let k = choose|k: int| 0 <= k < s.len() && #[trigger] spec_encode(s[k]) == blob;
        assert(s.push(x)[k] == s[k]);
        assert(spec_encode(s.push(x)[k]) == blob);
    } else {
        let (k, rec) = choose|k: int, rec: KeyRecord|
            0 <= k < s.len() && blob == spec_encode(rec) && #[trigger] rec_key_at(
                s,
                k,
                rec.name@,
                rec.chain,
            );
        assert(s.push(x)[k] == s[k]);
        assert(rec_key_at(s.push(x), k, rec.name@, rec.chain));
    }
}

/// Rebuilds a store from a batch of encoded records — the bytes of the
/// files found in a keystore directory. A blob that fails to parse, or
/// whose key collides with one already loaded, is skipped and counted,
/// never aborting the rest: every blob is either loaded or counted.
/// Every record in the resulting store is the exact decoding of one of
/// the blobs, and every decodable blob is accounted for — loaded, or in
/// collision with a loaded record.
pub fn load_records(blobs: &Vec<Vec<u8>>) -> (r: (RecordStore, usize))
    ensures
        r.0.wf(),
        r.0.staged() is None,
        r.0.recs().len() + r.1 == blobs@.len(),
        all_from_blobs(r.0.recs(), blobs@),
        decodables_represented(r.0.recs(), blobs@, blobs@.len() as int),
{
    let mut store = RecordStore::new();
    let mut skipped: usize = 0;
    let mut i: usize = 0;
    while i < blobs.len()
        invariant
            store.wf(),
            store.staged() is None,
            i <= blobs@.len(),
            store.recs().len() + skipped == i,
            all_from_blobs(store.recs(), blobs@),
            decodables_represented(store.recs(), blobs@, i as int),
        decreases blobs@.len() - i,
    {
        let ghost pre = store.recs();
        match decode_record(blobs[i].as_slice()) {
            Ok(rec) => {
                let ghost recg = rec;
                proof {
                    assert(spec_encode(rec) == blobs@[i as int]@);
                }
                let added = store.add(rec);
                if added.is_err() {
                    skipped += 1;
                }
                proof {
                    let cur = store.recs();
                    assert forall|q: int|
                        0 <= q < i as int + 1 && #[trigger] spec_decode_ok(
                            blobs@[q]@,
                        ) implies represented(cur, blobs@[q]@) by {
                        if q < i as int {
                            assert(represented(pre, blobs@[q]@));
                            if added is Ok {
                                lemma_represented_push(pre, recg, blobs@[q]@);
                            }
                        } else {
                            if added is Ok {
                                assert(cur[cur.len() - 1] == recg);
                                assert(spec_encode(cur[cur.len() - 1]) == blobs@[q]@);
                            } else {
                                assert(recs_contain(pre, recg.name@, recg.chain));
                                let k = choose|k: int|
                                    0 <= k < pre.len() && #[trigger] rec_key_at(
                                        pre,
                                        k,
                                        recg.name@,
                                        recg.chain,
                                    );
                                assert(blobs@[q]@ == spec_encode(recg));
                                assert(rec_key_at(cur, k, recg.name@, recg.chain));
                            }
                        }
                    }
                }
            },
            Err(_) => {
                skipped += 1;
                proof {
                    assert(!spec_decode_ok(blobs@[i as int]@));
                    assert forall|q: int|
                        0 <= q < i as int + 1 && #[trigger] spec_decode_ok(
                            blobs@[q]@,
                        ) implies represented(store.recs(), blobs@[q]@) by {
                        assert(q < i as int);
                        assert(represented(pre, blobs@[q]@));
                    }
                }
            },
        }
        i += 1;
    }
    (store, skipped)
}

} // verus!
