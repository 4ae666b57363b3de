//! The command surface the external CLI layer dispatches into: the six
//! Cosmos key subcommands as one value, and the Ethereum key listing
//! command. Argument parsing, prompting and printing stay outside; these
//! take already-resolved values and return plain results.

use vstd::prelude::*;
use crate::{Chain, KeystoreError};
use crate::adapter::spec_pubkey;
use crate::derivation::spec_derive;
use crate::keystore::{Keystore, ShowOutput};
use crate::record::name_ok;
use crate::store::spec_list;

verus! {

/// What a subcommand returns: nothing, the listed rows, or a shown
/// public identity.
pub enum CmdOutcome {
    Done,
    Rows(Vec<(Vec<u8>, Vec<u8>)>),
    Shown(ShowOutput),
}

/// The Cosmos key-management subcommands.
pub enum CosmosKeysCmd {
    Add { name: Vec<u8> },
    Import { name: Vec<u8>, mnemonic: Vec<u8> },
    Delete { name: Vec<u8> },
    Rename { name: Vec<u8>, new_name: Vec<u8> },
    List,
    Show { name: Vec<u8> },
}

impl CosmosKeysCmd {
    /// Every name carried by the command is a valid record name.
    pub open spec fn names_ok(&self) -> bool {
        match self {
            CosmosKeysCmd::Add { name } => name_ok(name@),
            CosmosKeysCmd::Import { name, mnemonic } => name_ok(name@),
            CosmosKeysCmd::Rename { name, new_name } => name_ok(new_name@),
            _ => true,
        }
    }

    /// Runs one Cosmos subcommand against the keystore, with the
    /// operator's passphrase where one is needed.
    pub fn run(&self, ks: &mut Keystore, passphrase: &[u8]) -> (r: Result<
        CmdOutcome,
        KeystoreError,
    >)
        requires
            old(ks).wf(),
            self.names_ok(),
        ensures
            final(ks).wf(),
            r is Err ==> final(ks).recs() == old(ks).recs(),
            (self matches CosmosKeysCmd::Add { name } ==> ((r == Err::<CmdOutcome, KeystoreError>(
                KeystoreError::NameAlreadyExists,
            ) <==> old(ks).contains_key(name@, Chain::Cosmos)) && (r is Ok ==> final(ks).recs().len() == old(ks).recs().len() + 1 && final(ks).recs().last().name@ == name@
                && final(ks).recs().last().chain == Chain::Cosmos && final(ks).recs().last().wf() && final(ks).recs().last().binds(passphrase@)))),
            (self matches CosmosKeysCmd::Import { name, mnemonic } ==> ((r == Err::<
                CmdOutcome,
                KeystoreError,
            >(KeystoreError::InvalidMnemonic) <==> spec_derive(mnemonic@, Chain::Cosmos, 0)
                is None) && (r is Ok ==> final(ks).recs().len() == old(ks).recs().len() + 1
                && final(ks).recs().last().name@ == name@ && final(ks).recs().last().wf()))),
            (self matches CosmosKeysCmd::Delete { name } ==> ((r == Err::<
                CmdOutcome,
                KeystoreError,
            >(KeystoreError::NotFound) <==> !old(ks).contains_key(name@, Chain::Cosmos)) && (r
                is Ok ==> !final(ks).contains_key(name@, Chain::Cosmos)))),
            (self matches CosmosKeysCmd::Rename { name, new_name } ==> ((r == Err::<
                CmdOutcome,
                KeystoreError,
            >(KeystoreError::NotFound) <==> !old(ks).contains_key(name@, Chain::Cosmos)) && (r
                is Ok ==> final(ks).contains_key(new_name@, Chain::Cosmos) && (name@ != new_name@
                ==> !final(ks).contains_key(name@, Chain::Cosmos))))),
            (self matches CosmosKeysCmd::List ==> final(ks).recs() == old(ks).recs() && r is Ok
                && (r matches Ok(CmdOutcome::Rows(rows)) && rows@.len() == spec_list(
                old(ks).recs(),
                Chain::Cosmos,
            ).len() && forall|i: int|
                0 <= i < rows@.len() ==> (#[trigger] rows@[i]).0@ == spec_list(
                    old(ks).recs(),
                    Chain::Cosmos,
                )[i].0 && rows@[i].1@ == spec_list(old(ks).recs(), Chain::Cosmos)[i].1)),
            (self matches CosmosKeysCmd::Show { name } ==> final(ks).recs() == old(ks).recs() && (
            r == Err::<CmdOutcome, KeystoreError>(KeystoreError::NotFound) <==> !old(ks).contains_key(name@, Chain::Cosmos)) && (r is Err ==> r == Err::<CmdOutcome, KeystoreError>(
                KeystoreError::NotFound,
            ) || r == Err::<CmdOutcome, KeystoreError>(KeystoreError::DecryptionFailed)) && (r
                matches Ok(out) ==> (out matches CmdOutcome::Shown(shown) && ({
                let rec = old(ks).store.spec_get(name@, Chain::Cosmos);
                &&& shown.name@ == rec.name@
                &&& shown.chain == Chain::Cosmos
                &&& shown.address@ == rec.address@
                &&& (rec.secret.spec_decrypt(passphrase@) matches Some(sk) && shown.public_key@
                    == spec_pubkey(Chain::Cosmos, sk))
            }))) && (({
                let rec = old(ks).store.spec_get(name@, Chain::Cosmos);
                old(ks).contains_key(name@, Chain::Cosmos) && rec.wf()
                    && rec.secret.params_supported() && rec.binds(passphrase@)
            }) ==> r is Ok)),
    {
        match self {
            CosmosKeysCmd::Add { name } => {
                match ks.add(name.as_slice(), Chain::Cosmos, passphrase) {
                    Ok(()) => Ok(CmdOutcome::Done),
                    Err(e) => Err(e),
                }
            },
            CosmosKeysCmd::Import { name, mnemonic } => {
                match ks.import(name.as_slice(), Chain::Cosmos, mnemonic.as_slice(), passphrase) {
                    Ok(()) => Ok(CmdOutcome::Done),
                    Err(e) => Err(e),
                }
            },
            CosmosKeysCmd::Delete { name } => {
                match ks.delete(name.as_slice(), Chain::Cosmos) {
                    Ok(()) => Ok(CmdOutcome::Done),
                    Err(e) => Err(e),
                }
            },
            CosmosKeysCmd::Rename { name, new_name } => {
                match ks.rename(name.as_slice(), new_name.as_slice(), Chain::Cosmos) {
                    Ok(()) => Ok(CmdOutcome::Done),
                    Err(e) => Err(e),
                }
            },
            CosmosKeysCmd::List => Ok(CmdOutcome::Rows(ks.list(Chain::Cosmos))),
            CosmosKeysCmd::Show { name } => {
                match ks.show(name.as_slice(), Chain::Cosmos, passphrase) {
                    Ok(out) => Ok(CmdOutcome::Shown(out)),
                    Err(e) => Err(e),
                }
            },
        }
    }
}

/// The Ethereum key listing command.
#[derive(Debug, Default)]
pub struct ListEthKeyCmd {}

impl ListEthKeyCmd {
    /// Walks the keystore and reports every Ethereum key's name and
    /// address.
    pub fn run(&self, ks: &Keystore) -> (r: Vec<(Vec<u8>, Vec<u8>)>)
        ensures
            r@.len() == spec_list(ks.recs(), Chain::Ethereum).len(),
            forall|i: int|
                0 <= i < r@.len() ==> (#[trigger] r@[i]).0@ == spec_list(
                    ks.recs(),
                    Chain::Ethereum,
                )[i].0 && r@[i].1@ == spec_list(ks.recs(), Chain::Ethereum)[i].1,
    {
        ks.list(Chain::Ethereum)
    }
}

} // verus!
