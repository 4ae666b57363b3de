//! The persisted unit of the keystore: one record per key, carrying the
//! public identity (name, chain, public key, address), the optional HD
//! derivation path, and the encrypted secret. A record never holds
//! plaintext key material.

use vstd::prelude::*;
use crate::Chain;
use crate::adapter::{spec_address, spec_pubkey, spec_pubkey_len};
use crate::crypto::valid_scalar;
use crate::secret::EncryptedSecret;

verus! {

/// A stored key record.
pub struct KeyRecord {
    pub name: Vec<u8>,
    pub chain: Chain,
    pub public_key: Vec<u8>,
    pub address: Vec<u8>,
    pub derivation_path: Option<Vec<u8>>,
    pub secret: EncryptedSecret,
}

/// A valid record name: non-empty ASCII without path separator
/// characters, small enough to prefix with a 32-bit length.
pub open spec fn name_ok(name: Seq<u8>) -> bool {
    0 < name.len() < 4294967296 && forall|i: int|
        0 <= i < name.len() ==> #[trigger] name[i] < 128 && name[i] != 47 && name[i] != 92
}

impl KeyRecord {
    /// Record well-formedness: the name is valid, the public key has the
    /// chain's encoding length, the address is the canonical address of
    /// the public key (never stored inconsistently with it), and the
    /// encrypted blob is structurally sound.
    pub open spec fn wf(&self) -> bool {
        name_ok(self.name@) && self.public_key@.len() == spec_pubkey_len(self.chain)
            && self.address@ == spec_address(self.chain, self.public_key@) && self.secret.wf()
    }

    /// Whether this record's secret, under `pass`, decrypts to the very
    /// private key whose public key the record carries.
    pub open spec fn binds(&self, pass: Seq<u8>) -> bool {
        self.secret.spec_decrypt(pass) matches Some(sk) && sk.len() == 32 && valid_scalar(sk)
            && self.public_key@ == spec_pubkey(self.chain, sk)
    }

}

} // verus!
