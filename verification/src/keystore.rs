//! The keystore facade: composes the derivation engine, the chain
//! adapters, the secret codec and the record store into the six
//! operations the command layer consumes — add, import, delete, rename,
//! list and show. No operation ever returns private key material past
//! this boundary, and no failed operation mutates the store.

use vstd::prelude::*;
use crate::{Chain, KeystoreError};
use crate::adapter::{
    public_key_from_private, address_from_public_key, copy_bytes, spec_pubkey, spec_address,
};
use crate::crypto::valid_scalar;
use crate::derivation::{derive_from_mnemonic, generate_random, spec_derive, spec_path};
use crate::record::{KeyRecord, name_ok};
use crate::secret::{encrypt, decrypt};
use crate::store::RecordStore;

verus! {

/// The public identity `show` displays: name, chain, public key and
/// address — never any secret.
pub struct ShowOutput {
    pub name: Vec<u8>,
    pub chain: Chain,
    pub public_key: Vec<u8>,
    pub address: Vec<u8>,
}

/// The keystore engine over one record store.
pub struct Keystore {
    pub store: RecordStore,
}

/// Law: a well-formed record whose secret decrypts under a passphrase to
/// the very key it advertises displays the canonical address of the
/// canonical public key of that decrypted key — what `show` surfaces
/// after a successful `add` equals `address(public_key(stored_key))`.
pub proof fn lemma_add_then_show(rec: KeyRecord, pass: Seq<u8>)
    requires
        rec.wf(),
        rec.binds(pass),
    ensures
        rec.secret.spec_decrypt(pass) matches Some(sk) && rec.public_key@ == spec_pubkey(
            rec.chain,
            sk,
        ) && rec.address@ == spec_address(rec.chain, spec_pubkey(rec.chain, sk)),
{
}

impl Keystore {
    /// A well-formed keystore: unique names per chain and no staged add
    /// in flight.
    pub open spec fn wf(&self) -> bool {
        self.store.wf() && self.store.staged() is None
    }

    /// The committed records.
    pub open spec fn recs(&self) -> Seq<KeyRecord> {
        self.store.recs()
    }

    /// Whether a record with this name exists for this chain.
    pub open spec fn contains_key(&self, name: Seq<u8>, chain: Chain) -> bool {
        self.store.contains_key(name, chain)
    }

    /// An empty keystore.
    pub fn new() -> (r: Keystore)
        ensures
            r.wf(),
            r.recs().len() == 0,
    {
        Keystore { store: RecordStore::new() }
    }

    /// Encrypts a derived key and stores a fresh, fully consistent record
    /// for it.
    fn add_with_key(
        &mut self,
        name: &[u8],
        chain: Chain,
        sk: Vec<u8>,
        path: Option<Vec<u8>>,
        passphrase: &[u8],
    ) -> (r: Result<(), KeystoreError>)
        requires
            old(self).wf(),
            name_ok(name@),
            sk@.len() == 32,
            valid_scalar(sk@),
            !old(self).contains_key(name@, chain),
        ensures
            final(self).wf(),
            r is Err ==> final(self).recs() == old(self).recs() && r == Err::<(), KeystoreError>(
                KeystoreError::EntropySourceError,
            ),
            r is Ok ==> final(self).recs().len() == old(self).recs().len() + 1 && (forall|j: int|
                0 <= j < old(self).recs().len() ==> final(self).recs()[j] == old(self).recs()[j])
                && final(self).recs().last().wf() && final(self).recs().last().name@ == name@
                && final(self).recs().last().chain == chain && final(self).recs().last().public_key@ == spec_pubkey(chain, sk@) && final(self).recs().last().binds(passphrase@) && final(self).recs().last().secret.params_supported() && final(self).recs().last().derivation_path
                == path,
    {
        let pk = public_key_from_private(chain, sk.as_slice()).unwrap();
        let addr = address_from_public_key(chain, pk.as_slice());
        let es = match encrypt(sk.as_slice(), passphrase) {
            Ok(es) => es,
            Err(e) => {
                return Err(e);
            },
        };
        let rec = KeyRecord {
            name: copy_bytes(name),
            chain,
            public_key: pk,
            address: addr,
            derivation_path: path,
            secret: es,
        };
        match self.store.add(rec) {
            Ok(()) => Ok(()),
            Err(_) => {
                proof {
                    assert(false);
                }
                Err(KeystoreError::EntropySourceError)
            },
        }
    }

    /// Add: generate a fresh random key, adapt it to the chain, encrypt
    /// it under the passphrase, and store it. Fails with
    /// `NameAlreadyExists` exactly when the name is already taken for the
    /// chain; no failure stores anything.
    pub fn add(&mut self, name: &[u8], chain: Chain, passphrase: &[u8]) -> (r: Result<
        (),
        KeystoreError,
    >)
        requires
            old(self).wf(),
            name_ok(name@),
        ensures
            final(self).wf(),
            r is Err ==> final(self).recs() == old(self).recs(),
            r == Err::<(), KeystoreError>(KeystoreError::NameAlreadyExists) <==> old(self).contains_key(name@, chain),
            r is Err ==> (r == Err::<(), KeystoreError>(KeystoreError::NameAlreadyExists) || r
                == Err::<(), KeystoreError>(KeystoreError::EntropySourceError)),
            r is Ok ==> final(self).recs().len() == old(self).recs().len() + 1 && (forall|j: int|
                0 <= j < old(self).recs().len() ==> final(self).recs()[j] == old(self).recs()[j])
                && final(self).recs().last().wf() && final(self).recs().last().name@ == name@
                && final(self).recs().last().chain == chain && final(self).recs().last().binds(
                passphrase@,
            ) && final(self).recs().last().secret.params_supported() && final(self).recs().last().derivation_path is None,
    {
        if self.store.has(name, chain) {
            return Err(KeystoreError::NameAlreadyExists);
        }
        let sk = match generate_random() {
            Ok(k) => k,
            Err(e) => {
                return Err(e);
            },
        };
        self.add_with_key(name, chain, sk, None, passphrase)
    }

    /// Import: derive the key from a mnemonic phrase (account index 0),
    /// adapt, encrypt and store it. `InvalidMnemonic` exactly when the
    /// phrase is rejected, before any store mutation; `NameAlreadyExists`
    /// exactly when the phrase is fine but the name is taken.
    pub fn import(&mut self, name: &[u8], chain: Chain, phrase: &[u8], passphrase: &[u8]) -> (r:
        Result<(), KeystoreError>)
        requires
            old(self).wf(),
            name_ok(name@),
        ensures
            final(self).wf(),
            r is Err ==> final(self).recs() == old(self).recs(),
            r == Err::<(), KeystoreError>(KeystoreError::InvalidMnemonic) <==> spec_derive(
                phrase@,
                chain,
                0,
            ) is None,
            spec_derive(phrase@, chain, 0) is Some ==> (r == Err::<(), KeystoreError>(
                KeystoreError::NameAlreadyExists,
            ) <==> old(self).contains_key(name@, chain)),
            r is Err ==> (r == Err::<(), KeystoreError>(KeystoreError::InvalidMnemonic) || r
                == Err::<(), KeystoreError>(KeystoreError::NameAlreadyExists) || r == Err::<
                (),
                KeystoreError,
            >(KeystoreError::EntropySourceError)),
            r is Ok ==> final(self).recs().len() == old(self).recs().len() + 1 && (forall|j: int|
                0 <= j < old(self).recs().len() ==> final(self).recs()[j] == old(self).recs()[j])
                && final(self).recs().last().wf() && final(self).recs().last().name@ == name@
                && final(self).recs().last().chain == chain && final(self).recs().last().binds(
                passphrase@,
            ) && final(self).recs().last().secret.params_supported() && final(self).recs().last().public_key@ == spec_pubkey(
                chain,
                spec_derive(phrase@, chain, 0)->0,
            ) && (final(self).recs().last().derivation_path matches Some(p) && p@ == spec_path(
                chain,
                0,
            )),
    {
        let derived = match derive_from_mnemonic(phrase, chain, 0) {
            Err(e) => {
                return Err(e);
            },
            Ok(d) => d,
        };
        if self.store.has(name, chain) {
            return Err(KeystoreError::NameAlreadyExists);
        }
        let (sk, path) = derived;
        self.add_with_key(name, chain, sk, Some(path), passphrase)
    }

    /// Delete: removes the record for good; `NotFound` exactly when it is
    /// absent, and nothing changes on failure.
    pub fn delete(&mut self, name: &[u8], chain: Chain) -> (r: Result<(), KeystoreError>)
        requires
            old(self).wf(),
        ensures
            final(self).wf(),
            r == Err::<(), KeystoreError>(KeystoreError::NotFound) <==> !old(self).contains_key(
                name@,
                chain,
            ),
            r is Err ==> r == Err::<(), KeystoreError>(KeystoreError::NotFound) && final(self).recs() == old(self).recs(),
            r is Ok ==> final(self).recs() == old(self).recs().remove(
                old(self).store.idx_of(name@, chain),
            ) && !final(self).contains_key(name@, chain),
    {
        self.store.delete(name, chain)
    }

    /// Rename: relabels the record in place; the key material, address
    /// and secret are untouched. `NotFound` when the old name is absent,
    /// `NameAlreadyExists` when the new one is taken; the original name
    /// stays intact on every failure.
    pub fn rename(&mut self, old_name: &[u8], new_name: &[u8], chain: Chain) -> (r: Result<
        (),
        KeystoreError,
    >)
        requires
            old(self).wf(),
            name_ok(new_name@),
        ensures
            final(self).wf(),
            r == Err::<(), KeystoreError>(KeystoreError::NotFound) <==> !old(self).contains_key(
                old_name@,
                chain,
            ),
            old(self).contains_key(old_name@, chain) ==> (r == Err::<(), KeystoreError>(
                KeystoreError::NameAlreadyExists,
            ) <==> old(self).contains_key(new_name@, chain)),
            r is Err ==> final(self).recs() == old(self).recs(),
            r is Ok ==> ({
                let i = old(self).store.idx_of(old_name@, chain);
                &&& final(self).recs().len() == old(self).recs().len()
                &&& final(self).recs()[i].name@ == new_name@
                &&& final(self).recs()[i].chain == chain
                &&& final(self).recs()[i].public_key == old(self).recs()[i].public_key
                &&& final(self).recs()[i].address == old(self).recs()[i].address
                &&& final(self).recs()[i].secret == old(self).recs()[i].secret
                &&& forall|j: int|
                    0 <= j < final(self).recs().len() && j != i ==> final(self).recs()[j] == old(self).recs()[j]
                &&& final(self).contains_key(new_name@, chain)
                &&& (old_name@ != new_name@ ==> !final(self).contains_key(old_name@, chain))
            }),
    {
        self.store.rename(old_name, new_name, chain)
    }

    /// List: the `(name, address)` rows for a chain; secrets are never
    /// read, and corrupt or staged entries never appear.
    pub fn list(&self, chain: Chain) -> (r: Vec<(Vec<u8>, Vec<u8>)>)
        ensures
            r@.len() == crate::store::spec_list(self.recs(), chain).len(),
            forall|i: int|
                0 <= i < r@.len() ==> (#[trigger] r@[i]).0@ == crate::store::spec_list(
                    self.recs(),
                    chain,
                )[i].0 && r@[i].1@ == crate::store::spec_list(self.recs(), chain)[i].1,
    {
        self.store.list(chain)
    }

    /// Show: look the record up, decrypt its secret under the passphrase,
    /// recompute the public key, and display the public identity only.
    /// `NotFound` exactly when the record is absent; every other failure
    /// is `DecryptionFailed`; success is owed whenever the record is
    /// well-formed and the passphrase is the one it was encrypted under.
    /// The store is never mutated.
    pub fn show(&self, name: &[u8], chain: Chain, passphrase: &[u8]) -> (r: Result<
        ShowOutput,
        KeystoreError,
    >)
        requires
            self.wf(),
        ensures
            r == Err::<ShowOutput, KeystoreError>(KeystoreError::NotFound) <==> !self.contains_key(
                name@,
                chain,
            ),
            r is Err ==> r == Err::<ShowOutput, KeystoreError>(KeystoreError::NotFound) || r
                == Err::<ShowOutput, KeystoreError>(KeystoreError::DecryptionFailed),
            self.contains_key(name@, chain) && self.store.spec_get(
                name@,
                chain,
            ).secret.spec_decrypt(passphrase@) is None ==> r == Err::<ShowOutput, KeystoreError>(
                KeystoreError::DecryptionFailed,
            ),
            r matches Ok(out) ==> ({
                let rec = self.store.spec_get(name@, chain);
                &&& self.contains_key(name@, chain)
                &&& out.name@ == rec.name@
                &&& out.chain == chain
                &&& out.address@ == rec.address@
                &&& (rec.secret.spec_decrypt(passphrase@) matches Some(sk) && out.public_key@
                    == spec_pubkey(chain, sk))
            }),
            ({
                let rec = self.store.spec_get(name@, chain);
                self.contains_key(name@, chain) && rec.wf() && rec.secret.params_supported()
                    && rec.binds(passphrase@)
            }) ==> r is Ok,
    {
        let rec = match self.store.get(name, chain) {
            Ok(rec) => rec,
            Err(_) => {
                return Err(KeystoreError::NotFound);
            },
        };
        if !(rec.secret.salt.len() == 16 && rec.secret.nonce.len() == 12 && rec.secret.ct.len()
            == 48) {
            return Err(KeystoreError::DecryptionFailed);
        }
        let sk = match decrypt(&rec.secret, passphrase) {
            Ok(k) => k,
            Err(e) => {
                return Err(e);
            },
        };
        let pk = match public_key_from_private(chain, sk.as_slice()) {
            Some(p) => p,
            None => {
                return Err(KeystoreError::DecryptionFailed);
            },
        };
        Ok(
            ShowOutput {
                name: copy_bytes(rec.name.as_slice()),
                chain,
                public_key: pk,
                address: copy_bytes(rec.address.as_slice()),
            },
        )
    }
}

} // verus!
