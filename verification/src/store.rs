//! The record store: a durable directory of one file per key, modeled as
//! the sequence of committed records plus an optional staged record (the
//! temp file of an in-flight add that has not yet been renamed into
//! place). Every observer — `get`, `list`, the uniqueness rule — reads
//! only the committed records, so an interrupted add is invisible until
//! its commit, and every mutation leaves the store in either its pre- or
//! post-operation state.

use vstd::prelude::*;
use crate::{Chain, KeystoreError};
use crate::adapter::copy_bytes;
use crate::record::KeyRecord;

verus! {

/// The `(name, address)` rows that `list` reports for a chain, in record
/// order, never touching any secret.
pub open spec fn spec_list(s: Seq<KeyRecord>, chain: Chain) -> Seq<(Seq<u8>, Seq<u8>)>
    decreases s.len(),
{
    if s.len() == 0 {
        Seq::empty()
    } else if s.last().chain == chain {
        spec_list(s.drop_last(), chain) + seq![(s.last().name@, s.last().address@)]
    } else {
        spec_list(s.drop_last(), chain)
    }
}


/// Whether record `i` of `s` carries the key `(name, chain)`.
pub open spec fn rec_key_at(s: Seq<KeyRecord>, i: int, name: Seq<u8>, chain: Chain) -> bool {
    s[i].name@ == name && s[i].chain == chain
}

/// Whether some record of `s` carries the key `(name, chain)`.
pub open spec fn recs_contain(s: Seq<KeyRecord>, name: Seq<u8>, chain: Chain) -> bool {
    exists|i: int| 0 <= i < s.len() && #[trigger] rec_key_at(s, i, name, chain)
}

/// The index in `s` of the record for `(name, chain)`.
pub open spec fn recs_idx(s: Seq<KeyRecord>, name: Seq<u8>, chain: Chain) -> int {
    choose|i: int| 0 <= i < s.len() && #[trigger] rec_key_at(s, i, name, chain)
}

/// Name uniqueness within each chain namespace.
pub open spec fn recs_wf(s: Seq<KeyRecord>) -> bool {
    forall|i: int, j: int|
        #![trigger rec_key_at(s, i, s[j].name@, s[j].chain)]
        0 <= i < s.len() && 0 <= j < s.len() && rec_key_at(s, i, s[j].name@, s[j].chain) ==> i == j
}

/// Law: `list` is faithful to the store — a name appears among the rows
/// listed for a chain exactly when a committed record with that name
/// exists for that chain. So a rename shows the new name and no longer
/// the old, and a delete removes its row.
pub proof fn lemma_list_reflects_store(s: Seq<KeyRecord>, chain: Chain, name: Seq<u8>)
    ensures
        (exists|i: int|
            0 <= i < spec_list(s, chain).len() && #[trigger] spec_list(s, chain)[i].0 == name)
            <==> recs_contain(s, name, chain),
    decreases s.len(),
{
    let l = spec_list(s, chain);
    if s.len() == 0 {
    } else {
        let pre = s.drop_last();
        let last = s.last();
        let lp = spec_list(pre, chain);
        lemma_list_reflects_store(pre, chain, name);
        if exists|i: int| 0 <= i < l.len() && #[trigger] l[i].0 == name {
            let i = choose|i: int| 0 <= i < l.len() && #[trigger] l[i].0 == name;
            if last.chain == chain && i == l.len() - 1 {
                assert(name == last.name@);
                assert(rec_key_at(s, s.len() - 1, name, chain));
                assert(recs_contain(s, name, chain));
            } else {
                assert(0 <= i < lp.len() && lp[i].0 == name);
                assert(recs_contain(pre, name, chain));
                let j = choose|j: int| 0 <= j < pre.len() && #[trigger] rec_key_at(pre, j, name, chain);
                assert(s[j] == pre[j]);
                assert(rec_key_at(s, j, name, chain));
                assert(recs_contain(s, name, chain));
            }
        }
        if recs_contain(s, name, chain) {
            let j = choose|j: int| 0 <= j < s.len() && #[trigger] rec_key_at(s, j, name, chain);
            if j == s.len() - 1 {
                assert(last.chain == chain);
                assert(l[l.len() - 1].0 == name);
            } else {
                assert(pre[j] == s[j]);
                assert(rec_key_at(pre, j, name, chain));
                assert(recs_contain(pre, name, chain));
                let i = choose|i: int|
                    0 <= i < lp.len() && #[trigger] lp[i].0 == name;
                assert(l[i].0 == name);
            }
        }
    }
}

pub struct RecordStore {
    committed: Vec<KeyRecord>,
    pending: Option<KeyRecord>,
}

/// Byte-for-byte equality of two slices.
pub(crate) fn bytes_eq(a: &[u8], b: &[u8]) -> (r: bool)
    ensures
        r == (a@ == b@),
{
    if a.len() != b.len() {
        return false;
    }
    let mut i: usize = 0;
    while i < a.len()
        invariant
            i <= a@.len(),
            a@.len() == b@.len(),
            forall|j: int| 0 <= j < i ==> a@[j] == b@[j],
        decreases a@.len() - i,
    {
        if a[i] != b[i] {
            return false;
        }
        i += 1;
    }
    proof {
        assert(a@ =~= b@);
    }
    true
}

impl RecordStore {
    /// The committed records.
    pub closed spec fn recs(&self) -> Seq<KeyRecord> {
        self.committed@
    }

    /// The staged record of an in-flight add, if any.
    pub closed spec fn staged(&self) -> Option<KeyRecord> {
        self.pending
    }

    /// Whether committed record `i` carries the key `(name, chain)`.
    pub open spec fn key_at(&self, i: int, name: Seq<u8>, chain: Chain) -> bool {
        rec_key_at(self.recs(), i, name, chain)
    }

    /// Whether a committed record with this name exists for this chain.
    pub open spec fn contains_key(&self, name: Seq<u8>, chain: Chain) -> bool {
        recs_contain(self.recs(), name, chain)
    }

    /// The index of the committed record for `(name, chain)`.
    pub open spec fn idx_of(&self, name: Seq<u8>, chain: Chain) -> int {
        recs_idx(self.recs(), name, chain)
    }

    /// The committed record for `(name, chain)`.
    pub open spec fn spec_get(&self, name: Seq<u8>, chain: Chain) -> KeyRecord {
        self.recs()[self.idx_of(name, chain)]
    }

    /// Name uniqueness within each chain namespace.
    pub open spec fn wf(&self) -> bool {
        recs_wf(self.recs())
    }

    /// In a well-formed store the index of a present key is unique.
    proof fn lemma_unique_idx(&self, name: Seq<u8>, chain: Chain, i: int)
        requires
            self.wf(),
            0 <= i < self.recs().len(),
            self.key_at(i, name, chain),
        ensures
            self.contains_key(name, chain),
            self.idx_of(name, chain) == i,
    {
        let s = self.recs();
        assert(recs_contain(s, name, chain));
        let j = recs_idx(s, name, chain);
        assert(0 <= j < s.len() && rec_key_at(s, j, name, chain));
        assert(rec_key_at(s, i, s[j].name@, s[j].chain));
    }

    /// An empty store.
    pub fn new() -> (r: RecordStore)
        ensures
            r.recs().len() == 0,
            r.staged() is None,
            r.wf(),
    {
        RecordStore { committed: Vec::new(), pending: None }
    }

    /// Finds the committed record for `(name, chain)`.
    fn find(&self, name: &[u8], chain: Chain) -> (r: Option<usize>)
        ensures
            r matches Some(i) ==> i < self.recs().len() && self.key_at(i as int, name@, chain),
            r is None ==> !self.contains_key(name@, chain),
    {
        let mut i: usize = 0;
        while i < self.committed.len()
            invariant
                i <= self.recs().len(),
                forall|j: int| 0 <= j < i ==> !#[trigger] rec_key_at(self.recs(), j, name@, chain),
            decreases self.recs().len() - i,
        {
            let rec: &KeyRecord = &self.committed[i];
            if bytes_eq(rec.name.as_slice(), name) && rec.chain == chain {
                return Some(i);
            }
            i += 1;
        }
        None
    }

    /// Whether a committed record with this name exists for this chain.
    pub fn has(&self, name: &[u8], chain: Chain) -> (r: bool)
        ensures
            r == self.contains_key(name@, chain),
    {
        match self.find(name, chain) {
            Some(i) => {
                proof {
                    assert(rec_key_at(self.recs(), i as int, name@, chain));
                    assert(recs_contain(self.recs(), name@, chain));
                }
                true
            },
            None => false,
        }
    }

    /// Looks a record up; fails with `NotFound` exactly when the key is
    /// absent.
    pub fn get(&self, name: &[u8], chain: Chain) -> (r: Result<&KeyRecord, KeystoreError>)
        requires
            self.wf(),
        ensures
            self.contains_key(name@, chain) ==> (r matches Ok(rec) && *rec == self.spec_get(
                name@,
                chain,
            ) && rec.name@ == name@ && rec.chain == chain),
            !self.contains_key(name@, chain) ==> r == Err::<&KeyRecord, KeystoreError>(
                KeystoreError::NotFound,
            ),
    {
        match self.find(name, chain) {
            Some(i) => {
                proof {
                    self.lemma_unique_idx(name@, chain, i as int);
                }
                Ok(&self.committed[i])
            },
            None => Err(KeystoreError::NotFound),
        }
    }

    /// Stages a record for addition — the write of the temp file. The
    /// committed records are untouched either way, so an add interrupted
    /// after this step changes nothing observable.
    pub fn begin_add(&mut self, rec: KeyRecord) -> (r: Result<(), KeystoreError>)
        requires
            old(self).wf(),
            old(self).staged() is None,
        ensures
            final(self).recs() == old(self).recs(),
            final(self).wf(),
            old(self).contains_key(rec.name@, rec.chain) ==> r == Err::<(), KeystoreError>(
                KeystoreError::NameAlreadyExists,
            ) && final(self).staged() is None,
            !old(self).contains_key(rec.name@, rec.chain) ==> r is Ok && final(self).staged()
                == Some(rec),
    {
        match self.find(rec.name.as_slice(), rec.chain) {
            Some(_) => {
                proof {
                    assert(self.contains_key(rec.name@, rec.chain));
                }
                Err(KeystoreError::NameAlreadyExists)
            },
            None => {
                self.pending = Some(rec);
                Ok(())
            },
        }
    }

    /// Commits the staged record — the atomic rename into place.
    pub fn commit_add(&mut self)
        requires
            old(self).wf(),
            old(self).staged() is Some,
            !old(self).contains_key(old(self).staged()->0.name@, old(self).staged()->0.chain),
        ensures
            final(self).recs() == old(self).recs().push(old(self).staged()->0),
            final(self).staged() is None,
            final(self).wf(),
    {
        let rec = self.pending.take().unwrap();
        self.committed.push(rec);
        proof {
            let s = self.recs();
            let olds = old(self).recs();
            let n = olds.len() as int;
            assert forall|i: int, j: int|
                0 <= i < s.len() && 0 <= j < s.len() && rec_key_at(
                    s,
                    i,
                    s[j].name@,
                    s[j].chain,
                ) implies i == j by {
                if i < n && j < n {
                    assert(rec_key_at(olds, i, olds[j].name@, olds[j].chain));
                } else if i < n && j == n {
                    assert(rec_key_at(olds, i, s[j].name@, s[j].chain));
                    assert(recs_contain(olds, s[j].name@, s[j].chain));
                } else if i == n && j < n {
                    assert(rec_key_at(olds, j, s[i].name@, s[i].chain));
                    assert(recs_contain(olds, s[i].name@, s[i].chain));
                }
            }
            assert(recs_wf(s));
        }
    }

    /// Aborts a staged addition — the temp file is discarded.
    pub fn abort_add(&mut self)
        requires
            old(self).wf(),
        ensures
            final(self).recs() == old(self).recs(),
            final(self).staged() is None,
            final(self).wf(),
    {
        self.pending = None;
    }

    /// Adds a record: fails with `NameAlreadyExists` exactly when the name
    /// is already taken for the chain, and otherwise appends the record.
    pub fn add(&mut self, rec: KeyRecord) -> (r: Result<(), KeystoreError>)
        requires
            old(self).wf(),
            old(self).staged() is None,
        ensures
            final(self).wf(),
            final(self).staged() is None,
            old(self).contains_key(rec.name@, rec.chain) ==> r == Err::<(), KeystoreError>(
                KeystoreError::NameAlreadyExists,
            ) && final(self).recs() == old(self).recs(),
            !old(self).contains_key(rec.name@, rec.chain) ==> r is Ok && final(self).recs() == old(
                self,
            ).recs().push(rec),
    {
        match self.begin_add(rec) {
            Err(e) => {
                self.pending = None;
                Err(e)
            },
            Ok(()) => {
                self.commit_add();
                Ok(())
            },
        }
    }

    /// Renames a record in place: `NotFound` when the old name is absent,
    /// `NameAlreadyExists` when the new name is taken, and otherwise the
    /// record keeps every field but its name — content, address and
    /// secret unchanged.
    pub fn rename(&mut self, old_name: &[u8], new_name: &[u8], chain: Chain) -> (r: Result<
        (),
        KeystoreError,
    >)
        requires
            old(self).wf(),
        ensures
            final(self).wf(),
            final(self).staged() == old(self).staged(),
            !old(self).contains_key(old_name@, chain) ==> r == Err::<(), KeystoreError>(
                KeystoreError::NotFound,
            ) && final(self).recs() == old(self).recs(),
            old(self).contains_key(old_name@, chain) && old(self).contains_key(new_name@, chain)
                ==> r == Err::<(), KeystoreError>(KeystoreError::NameAlreadyExists) && final(self).recs()
                == old(self).recs(),
            old(self).contains_key(old_name@, chain) && !old(self).contains_key(new_name@, chain)
                ==> r is Ok && ({
                let i = old(self).idx_of(old_name@, chain);
                &&& final(self).recs().len() == old(self).recs().len()
                &&& final(self).recs()[i].name@ == new_name@
                &&& final(self).recs()[i].chain == chain
                &&& final(self).recs()[i].public_key == old(self).recs()[i].public_key
                &&& final(self).recs()[i].address == old(self).recs()[i].address
                &&& final(self).recs()[i].derivation_path == old(self).recs()[i].derivation_path
                &&& final(self).recs()[i].secret == old(self).recs()[i].secret
                &&& forall|j: int|
                    0 <= j < final(self).recs().len() && j != i ==> final(self).recs()[j] == old(self).recs()[j]
                &&& final(self).contains_key(new_name@, chain)
                &&& (old_name@ != new_name@ ==> !final(self).contains_key(old_name@, chain))
            }),
    {
        let idx = match self.find(old_name, chain) {
            None => {
                return Err(KeystoreError::NotFound);
            },
            Some(i) => i,
        };
        match self.find(new_name, chain) {
            Some(_) => {
                proof {
                    assert(self.contains_key(new_name@, chain));
                }
                return Err(KeystoreError::NameAlreadyExists);
            },
            None => {},
        }
        proof {
            self.lemma_unique_idx(old_name@, chain, idx as int);
        }
        let old_rec = self.committed.remove(idx);
        let new_rec = KeyRecord {
            name: copy_bytes(new_name),
            chain: old_rec.chain,
            public_key: old_rec.public_key,
            address: old_rec.address,
            derivation_path: old_rec.derivation_path,
            secret: old_rec.secret,
        };
        self.committed.insert(idx, new_rec);
        proof {
            let i = idx as int;
            let olds = old(self).recs();
            let s = self.recs();
            assert(s =~= olds.update(i, s[i]));
            assert(s[i].name@ == new_name@);
            assert forall|a: int, b: int|
                0 <= a < s.len() && 0 <= b < s.len() && rec_key_at(
                    s,
                    a,
                    s[b].name@,
                    s[b].chain,
                ) implies a == b by {
                if a != i && b != i {
                    assert(rec_key_at(olds, a, olds[b].name@, olds[b].chain));
                } else if a == i && b != i {
                    assert(rec_key_at(olds, b, new_name@, chain));
                    assert(recs_contain(olds, new_name@, chain));
                } else if a != i && b == i {
                    assert(rec_key_at(olds, a, new_name@, chain));
                    assert(recs_contain(olds, new_name@, chain));
                }
            }
            assert(recs_wf(s));
            assert(rec_key_at(s, i, new_name@, chain));
            assert(recs_contain(s, new_name@, chain));
            if old_name@ != new_name@ {
                assert forall|j: int|
                    !(0 <= j < s.len() && #[trigger] rec_key_at(s, j, old_name@, chain)) by {
                    if 0 <= j < s.len() && rec_key_at(s, j, old_name@, chain) {
                        assert(j != i);
                        assert(rec_key_at(olds, j, old_name@, chain));
                        old(self).lemma_unique_idx(old_name@, chain, j);
                    }
                }
            }
        }
        Ok(())
    }

    /// Deletes a record: `NotFound` when absent, otherwise the record is
    /// removed for good and its key no longer resolves.
    pub fn delete(&mut self, name: &[u8], chain: Chain) -> (r: Result<(), KeystoreError>)
        requires
            old(self).wf(),
        ensures
            final(self).wf(),
            final(self).staged() == old(self).staged(),
            !old(self).contains_key(name@, chain) ==> r == Err::<(), KeystoreError>(
                KeystoreError::NotFound,
            ) && final(self).recs() == old(self).recs(),
            old(self).contains_key(name@, chain) ==> r is Ok && final(self).recs() == old(
                self,
            ).recs().remove(old(self).idx_of(name@, chain)) && !final(self).contains_key(name@, chain),
    {
        let idx = match self.find(name, chain) {
            None => {
                return Err(KeystoreError::NotFound);
            },
            Some(i) => i,
        };
        proof {
            self.lemma_unique_idx(name@, chain, idx as int);
        }
        self.committed.remove(idx);
        proof {
            let i = idx as int;
            let olds = old(self).recs();
            let s = self.recs();
            olds.remove_ensures(i);
            assert forall|a: int, b: int|
                0 <= a < s.len() && 0 <= b < s.len() && rec_key_at(
                    s,
                    a,
                    s[b].name@,
                    s[b].chain,
                ) implies a == b by {
                let a0 = if a < i { a } else { a + 1 };
                let b0 = if b < i { b } else { b + 1 };
                assert(s[a] == olds[a0] && s[b] == olds[b0]);
                assert(rec_key_at(olds, a0, olds[b0].name@, olds[b0].chain));
            }
            assert(recs_wf(s));
            assert forall|j: int|
                !(0 <= j < s.len() && #[trigger] rec_key_at(s, j, name@, chain)) by {
                if 0 <= j < s.len() && rec_key_at(s, j, name@, chain) {
                    let j0 = if j < i { j } else { j + 1 };
                    assert(s[j] == olds[j0]);
                    assert(rec_key_at(olds, j0, name@, chain));
                    old(self).lemma_unique_idx(name@, chain, j0);
                }
            }
        }
        Ok(())
    }

    /// Lists the `(name, address)` rows for a chain, reading only the
    /// committed records and never any secret.
    pub fn list(&self, chain: Chain) -> (r: Vec<(Vec<u8>, Vec<u8>)>)
        ensures
            r@.len() == spec_list(self.recs(), chain).len(),
            forall|i: int|
                0 <= i < r@.len() ==> (#[trigger] r@[i]).0@ == spec_list(self.recs(), chain)[i].0
                    && r@[i].1@ == spec_list(self.recs(), chain)[i].1,
    {
        let mut out: Vec<(Vec<u8>, Vec<u8>)> = Vec::new();
        let mut i: usize = 0;
        while i < self.committed.len()
            invariant
                i <= self.recs().len(),
                out@.len() == spec_list(self.recs().take(i as int), chain).len(),
                forall|k: int|
                    0 <= k < out@.len() ==> (#[trigger] out@[k]).0@ == spec_list(
                        self.recs().take(i as int),
                        chain,
                    )[k].0 && out@[k].1@ == spec_list(self.recs().take(i as int), chain)[k].1,
            decreases self.recs().len() - i,
        {
            let rec: &KeyRecord = &self.committed[i];
            proof {
                let pre = self.recs().take(i as int);
                let post = self.recs().take(i as int + 1);
                assert(post.drop_last() =~= pre);
                assert(post.last() == self.recs()[i as int]);
            }
            if rec.chain == chain {
                out.push((copy_bytes(rec.name.as_slice()), copy_bytes(rec.address.as_slice())));
            }
            i += 1;
        }
        proof {
            assert(self.recs().take(self.recs().len() as int) =~= self.recs());
        }
        out
    }
}

} // verus!
