use gorc_keystore::Chain;
use gorc_keystore::KeystoreError;
use gorc_keystore::adapter::{
    address_from_public_key, deserialize_private_key, hex_lower, public_key_from_private,
    serialize_private_key,
};
use gorc_keystore::commands::{CmdOutcome, CosmosKeysCmd, ListEthKeyCmd};
use gorc_keystore::derivation::{count_words, derive_from_mnemonic, derive_from_mnemonic_twice, generate_random};
use gorc_keystore::keystore::Keystore;
use gorc_keystore::record::KeyRecord;
use gorc_keystore::secret::EncryptedSecret;

const MNEMONIC: &[u8] =
    b"abandon abandon abandon abandon abandon abandon abandon abandon abandon abandon abandon about";
const BAD_CHECKSUM: &[u8] =
    b"abandon abandon abandon abandon abandon abandon abandon abandon abandon abandon abandon abandon";
const THIRTEEN: &[u8] =
    b"abandon abandon abandon abandon abandon abandon abandon abandon abandon abandon abandon abandon about";

#[test]
fn word_count_exact() {
    assert_eq!(count_words(b"a b  c"), 3);
    assert_eq!(count_words(b""), 0);
    assert_eq!(count_words(b"   "), 0);
    assert_eq!(count_words(MNEMONIC), 12);
    assert_eq!(count_words(THIRTEEN), 13);
}

#[test]
fn hex_lower_exact() {
    let out = hex_lower(&[0x00u8, 0xff, 0x1a]);
    assert_eq!(out.as_slice(), b"00ff1a");
    let empty = hex_lower(&[]);
    assert_eq!(empty.len(), 0);
}

#[test]
fn derive_deterministic_round_trip() {
    let a = derive_from_mnemonic(MNEMONIC, Chain::Cosmos, 0).unwrap();
    let b = derive_from_mnemonic(MNEMONIC, Chain::Cosmos, 0).unwrap();
    assert_eq!(a.0, b.0);
    assert_eq!(a.1, b.1);
    let (e1, e2) = derive_from_mnemonic_twice(MNEMONIC, Chain::Ethereum, 0);
    let e1 = e1.unwrap();
    let e2 = e2.unwrap();
    assert_eq!(e1.0, e2.0);
    // The two chains use distinct coin types, so the keys differ.
    assert_ne!(a.0, e1.0);
    // Public keys and addresses computed from equal keys are equal.
    let p1 = public_key_from_private(Chain::Cosmos, &a.0).unwrap();
    let p2 = public_key_from_private(Chain::Cosmos, &b.0).unwrap();
    assert_eq!(p1, p2);
    let a1 = address_from_public_key(Chain::Cosmos, &p1);
    let a2 = address_from_public_key(Chain::Cosmos, &p2);
    assert_eq!(a1, a2);
}

#[test]
fn derivation_path_recorded() {
    let (_, path) = derive_from_mnemonic(MNEMONIC, Chain::Ethereum, 0).unwrap();
    assert_eq!(path.as_slice(), b"m/44'/60'/0'/0/0");
    let (_, path) = derive_from_mnemonic(MNEMONIC, Chain::Cosmos, 7).unwrap();
    assert_eq!(path.as_slice(), b"m/44'/118'/0'/0/7");
}

#[test]
fn add_then_show_address_canonical() {
    let mut ks = Keystore::new();
    ks.add(b"alice", Chain::Ethereum, b"hunter2").unwrap();
    let out = ks.show(b"alice", Chain::Ethereum, b"hunter2").unwrap();
    // The displayed address is the canonical address of the public key
    // recomputed from the decrypted stored key.
    let recomputed = address_from_public_key(Chain::Ethereum, &out.public_key);
    assert_eq!(out.address, recomputed);
    assert_eq!(&out.address[..2], b"0x");
    assert_eq!(out.address.len(), 42);
    assert_eq!(out.public_key.len(), 65);
    assert_eq!(out.name.as_slice(), b"alice");
}

#[test]
fn add_twice_uniqueness() {
    let mut ks = Keystore::new();
    assert!(ks.add(b"bob", Chain::Cosmos, b"pw").is_ok());
    let second = ks.add(b"bob", Chain::Cosmos, b"pw");
    assert!(matches!(second, Err(KeystoreError::NameAlreadyExists)));
    // Same name on the other chain is its own namespace.
    assert!(ks.add(b"bob", Chain::Ethereum, b"pw").is_ok());
}

#[test]
fn rename_keeps_address() {
    let mut ks = Keystore::new();
    ks.import(b"bob", Chain::Cosmos, MNEMONIC, b"pw").unwrap();
    let before = ks.list(Chain::Cosmos);
    assert_eq!(before.len(), 1);
    assert_eq!(before[0].0.as_slice(), b"bob");
    let addr_before = before[0].1.clone();
    ks.rename(b"bob", b"robert", Chain::Cosmos).unwrap();
    let after = ks.list(Chain::Cosmos);
    assert_eq!(after.len(), 1);
    assert_eq!(after[0].0.as_slice(), b"robert");
    assert_eq!(after[0].1, addr_before);
    assert!(matches!(
        ks.show(b"bob", Chain::Cosmos, b"pw"),
        Err(KeystoreError::NotFound)
    ));
    assert!(ks.show(b"robert", Chain::Cosmos, b"pw").is_ok());
}

#[test]
fn rename_errors() {
    let mut ks = Keystore::new();
    assert!(matches!(
        ks.rename(b"ghost", b"other", Chain::Cosmos),
        Err(KeystoreError::NotFound)
    ));
    ks.add(b"a", Chain::Cosmos, b"pw").unwrap();
    ks.add(b"b", Chain::Cosmos, b"pw").unwrap();
    assert!(matches!(
        ks.rename(b"a", b"b", Chain::Cosmos),
        Err(KeystoreError::NameAlreadyExists)
    ));
    // The failed rename left both names intact.
    let rows = ks.list(Chain::Cosmos);
    assert_eq!(rows.len(), 2);
}

#[test]
fn delete_complete() {
    let mut ks = Keystore::new();
    ks.import(b"robert", Chain::Cosmos, MNEMONIC, b"pw").unwrap();
    ks.delete(b"robert", Chain::Cosmos).unwrap();
    assert!(matches!(
        ks.show(b"robert", Chain::Cosmos, b"anything"),
        Err(KeystoreError::NotFound)
    ));
    assert_eq!(ks.list(Chain::Cosmos).len(), 0);
    assert!(matches!(
        ks.delete(b"robert", Chain::Cosmos),
        Err(KeystoreError::NotFound)
    ));
}

#[test]
fn wrong_passphrase_isolated() {
    let mut ks = Keystore::new();
    ks.add(b"carol", Chain::Cosmos, b"correct horse").unwrap();
    let wrong = ks.show(b"carol", Chain::Cosmos, b"battery staple");
    assert!(matches!(wrong, Err(KeystoreError::DecryptionFailed)));
    // The record is untouched: the right passphrase still works.
    let ok = ks.show(b"carol", Chain::Cosmos, b"correct horse").unwrap();
    assert_eq!(ok.name.as_slice(), b"carol");
    assert_eq!(ks.list(Chain::Cosmos).len(), 1);
}

#[test]
fn mnemonic_validation_no_mutation() {
    let mut ks = Keystore::new();
    assert!(matches!(
        ks.import(b"k", Chain::Cosmos, THIRTEEN, b"pw"),
        Err(KeystoreError::InvalidMnemonic)
    ));
    assert!(matches!(
        ks.import(b"k", Chain::Cosmos, BAD_CHECKSUM, b"pw"),
        Err(KeystoreError::InvalidMnemonic)
    ));
    assert!(matches!(
        ks.import(b"k", Chain::Ethereum, b"not a mnemonic at all", b"pw"),
        Err(KeystoreError::InvalidMnemonic)
    ));
    assert_eq!(ks.list(Chain::Cosmos).len(), 0);
    assert_eq!(ks.list(Chain::Ethereum).len(), 0);
}

#[test]
fn interrupted_add_invisible() {
    let mut ks = Keystore::new();
    ks.add(b"dave", Chain::Cosmos, b"pw").unwrap();
    let before = ks.list(Chain::Cosmos);
    // Simulate a crash between the temp-file write and the rename: the
    // record is staged but never committed.
    let staged = KeyRecord {
        name: b"eve".to_vec(),
        chain: Chain::Cosmos,
        public_key: vec![2u8; 33],
        address: b"cosmos1xxxx".to_vec(),
        derivation_path: None,
        secret: EncryptedSecret {
            salt: vec![0u8; 16],
            nonce: vec![0u8; 12],
            log_n: 15,
            cost_r: 8,
            cost_p: 1,
            ct: vec![0u8; 48],
        },
    };
    ks.store.begin_add(staged).unwrap();
    let during = ks.store.list(Chain::Cosmos);
    assert_eq!(before.len(), during.len());
    assert_eq!(during.len(), 1);
    assert_eq!(during[0].0.as_slice(), b"dave");
    ks.store.abort_add();
    assert_eq!(ks.list(Chain::Cosmos).len(), 1);
}

#[test]
fn cosmos_address_shape() {
    let mut ks = Keystore::new();
    ks.import(b"frank", Chain::Cosmos, MNEMONIC, b"pw").unwrap();
    let rows = ks.list(Chain::Cosmos);
    assert_eq!(rows.len(), 1);
    let addr = &rows[0].1;
    assert_eq!(&addr[..7], b"cosmos1");
    // hrp + separator + 32 data characters + 6 checksum characters.
    assert_eq!(addr.len(), 45);
}

#[test]
fn stored_record_fields() {
    let mut ks = Keystore::new();
    ks.import(b"grace", Chain::Ethereum, MNEMONIC, b"pw").unwrap();
    let rec = ks.store.get(b"grace", Chain::Ethereum).unwrap();
    assert_eq!(rec.name.as_slice(), b"grace");
    assert_eq!(rec.public_key.len(), 65);
    assert_eq!(
        rec.derivation_path.as_ref().unwrap().as_slice(),
        b"m/44'/60'/0'/0/0"
    );
    assert_eq!(rec.secret.salt.len(), 16);
    assert_eq!(rec.secret.nonce.len(), 12);
    assert_eq!(rec.secret.ct.len(), 48);
    // A freshly generated record for the same chain gets a different key
    // and so a different address.
    ks.add(b"heidi", Chain::Ethereum, b"pw").unwrap();
    let other = ks.store.get(b"heidi", Chain::Ethereum).unwrap();
    assert_ne!(other.address, ks.store.get(b"grace", Chain::Ethereum).unwrap().address);
}

#[test]
fn serialize_round_trip_and_invalid_scalar() {
    let (key, _) = derive_from_mnemonic(MNEMONIC, Chain::Cosmos, 0).unwrap();
    let ser = serialize_private_key(&key);
    let back = deserialize_private_key(&ser).unwrap();
    assert_eq!(back, key);
    // The zero scalar is not a valid private key.
    assert!(deserialize_private_key(&[0u8; 32]).is_none());
    // Wrong length is rejected.
    assert!(deserialize_private_key(&[1u8; 31]).is_none());
}

#[test]
fn generate_random_distinct() {
    let a = generate_random().unwrap();
    let b = generate_random().unwrap();
    assert_eq!(a.len(), 32);
    assert_eq!(b.len(), 32);
    assert_ne!(a, b);
}

#[test]
fn cosmos_cmd_dispatch() {
    let mut ks = Keystore::new();
    let add = CosmosKeysCmd::Add { name: b"ivan".to_vec() };
    assert!(matches!(add.run(&mut ks, b"pw"), Ok(CmdOutcome::Done)));
    let list = CosmosKeysCmd::List;
    match list.run(&mut ks, b"").unwrap() {
        CmdOutcome::Rows(rows) => {
            assert_eq!(rows.len(), 1);
            assert_eq!(rows[0].0.as_slice(), b"ivan");
        }
        _ => panic!("list must return rows"),
    }
    let show = CosmosKeysCmd::Show { name: b"ivan".to_vec() };
    match show.run(&mut ks, b"pw").unwrap() {
        CmdOutcome::Shown(out) => assert_eq!(out.name.as_slice(), b"ivan"),
        _ => panic!("show must return an identity"),
    }
    let wrong = CosmosKeysCmd::Show { name: b"ivan".to_vec() }.run(&mut ks, b"nope");
    assert!(matches!(wrong, Err(KeystoreError::DecryptionFailed)));
    let rename = CosmosKeysCmd::Rename { name: b"ivan".to_vec(), new_name: b"judy".to_vec() };
    assert!(rename.run(&mut ks, b"").is_ok());
    let delete = CosmosKeysCmd::Delete { name: b"judy".to_vec() };
    assert!(delete.run(&mut ks, b"").is_ok());
    assert!(matches!(
        CosmosKeysCmd::Delete { name: b"judy".to_vec() }.run(&mut ks, b""),
        Err(KeystoreError::NotFound)
    ));
}

#[test]
fn eth_list_cmd() {
    let mut ks = Keystore::new();
    ks.add(b"em", Chain::Ethereum, b"pw").unwrap();
    ks.add(b"cm", Chain::Cosmos, b"pw").unwrap();
    let rows = ListEthKeyCmd::default().run(&ks);
    assert_eq!(rows.len(), 1);
    assert_eq!(rows[0].0.as_slice(), b"em");
    assert_eq!(&rows[0].1[..2], b"0x");
}

#[test]
fn eth_checksum_mixed_case() {
    // EIP-55 casing almost surely mixes cases over 40 hex digits; a
    // checksummed address that came back all lowercase would mean the
    // second hash was ignored.
    let (key, _) = derive_from_mnemonic(MNEMONIC, Chain::Ethereum, 0).unwrap();
    let pk = public_key_from_private(Chain::Ethereum, &key).unwrap();
    let addr = address_from_public_key(Chain::Ethereum, &pk);
    let hexpart = &addr[2..];
    assert!(hexpart.iter().all(|c| c.is_ascii_hexdigit()));
    assert!(hexpart.iter().any(|c| c.is_ascii_uppercase()));
    assert!(hexpart.iter().any(|c| c.is_ascii_lowercase()));
}

#[test]
fn codec_round_trip() {
    let mut ks = Keystore::new();
    ks.import(b"grace", Chain::Ethereum, MNEMONIC, b"pw").unwrap();
    let rec = ks.store.get(b"grace", Chain::Ethereum).unwrap();
    let bytes = gorc_keystore::codec::encode_record(rec);
    let back = gorc_keystore::codec::decode_record(&bytes).unwrap();
    assert_eq!(back.name, rec.name);
    assert_eq!(back.chain, rec.chain);
    assert_eq!(back.public_key, rec.public_key);
    assert_eq!(back.address, rec.address);
    assert_eq!(back.derivation_path, rec.derivation_path);
    assert_eq!(back.secret.salt, rec.secret.salt);
    assert_eq!(back.secret.nonce, rec.secret.nonce);
    assert_eq!(back.secret.log_n, rec.secret.log_n);
    assert_eq!(back.secret.cost_r, rec.secret.cost_r);
    assert_eq!(back.secret.cost_p, rec.secret.cost_p);
    assert_eq!(back.secret.ct, rec.secret.ct);
}

#[test]
fn codec_rejects_corrupt() {
    assert!(matches!(
        gorc_keystore::codec::decode_record(b""),
        Err(KeystoreError::CorruptRecord)
    ));
    assert!(matches!(
        gorc_keystore::codec::decode_record(&[7u8, 0, 0]),
        Err(KeystoreError::CorruptRecord)
    ));
    let mut ks = Keystore::new();
    ks.add(b"x", Chain::Cosmos, b"pw").unwrap();
    let rec = ks.store.get(b"x", Chain::Cosmos).unwrap();
    let mut bytes = gorc_keystore::codec::encode_record(rec);
    // A record without a derivation path decodes too.
    assert!(gorc_keystore::codec::decode_record(&bytes).is_ok());
    // Truncation is corruption.
    let cut = bytes.len() / 2;
    assert!(matches!(
        gorc_keystore::codec::decode_record(&bytes[..cut]),
        Err(KeystoreError::CorruptRecord)
    ));
    // Trailing bytes are corruption too: the encoding is canonical.
    bytes.push(0);
    assert!(matches!(
        gorc_keystore::codec::decode_record(&bytes),
        Err(KeystoreError::CorruptRecord)
    ));
}

#[test]
fn load_records_isolates_corruption() {
    let mut ks = Keystore::new();
    ks.import(b"one", Chain::Cosmos, MNEMONIC, b"pw").unwrap();
    ks.add(b"two", Chain::Ethereum, b"pw").unwrap();
    let blob1 = gorc_keystore::codec::encode_record(ks.store.get(b"one", Chain::Cosmos).unwrap());
    let blob2 = gorc_keystore::codec::encode_record(ks.store.get(b"two", Chain::Ethereum).unwrap());
    let garbage = vec![9u8, 9, 9, 9];
    let blobs = vec![blob1.clone(), garbage, blob2, blob1];
    let (store, skipped) = gorc_keystore::codec::load_records(&blobs);
    // The corrupt blob and the duplicate are skipped; the rest survive.
    assert_eq!(skipped, 2);
    assert_eq!(store.list(Chain::Cosmos).len(), 1);
    assert_eq!(store.list(Chain::Ethereum).len(), 1);
    let loaded = Keystore { store };
    let shown = loaded.show(b"one", Chain::Cosmos, b"pw").unwrap();
    assert_eq!(shown.name.as_slice(), b"one");
}
