//! The wallet's own identity: made once, kept as a JSON Web Key, and read
//! back from there ever after.

use vstd::prelude::*;
use crate::errors::WalletError;
use crate::identity::{identity_of_seed, Identity, IdentityView};
use crate::keys::{
    decode_jwk, did_document, did_document_text, encode_jwk, fresh_seed, jwk_keys, jwk_text, DidDocument,
};
use crate::registry::connect;
use crate::store::{connected, WalletStore, WalletView};
use crate::text::{same_bytes, same_text};

verus! {

/// The curve that the key file names.
pub const CURVE: &'static str = "Ed25519";

/// The alias under which the wallet knows itself.
pub const SELF_ALIAS: &'static str = "self";

/// The identity that a key file holds: the one of its private key, where the
/// file names the curve and the public key that belong to it.
pub open spec fn key_file_identity(text: Seq<char>) -> Result<IdentityView, WalletError> {
    match jwk_keys(text) {
        None => Err(WalletError::CorruptKey),
        Some((curve, public_key, private_key)) => match identity_of_seed(private_key) {
            Some(identity) => if curve == CURVE@ && public_key == identity.public_key {
                Ok(identity)
            } else {
                Err(WalletError::CorruptKey)
            },
            None => Err(WalletError::CorruptKey),
        },
    }
}

/// The identity that the store holds.
pub open spec fn loaded(store: WalletView) -> Result<IdentityView, WalletError> {
    match store.key_file {
        None => Err(WalletError::Storage),
        Some(text) => key_file_identity(text),
    }
}

/// Store and identity after the identity of `seed` was installed: the key
/// file holds it and the wallet is connected to itself. Nothing changes where
/// the store holds a key file already, where the seed has no identity, or
/// where the key file would not read back as written.
pub open spec fn installed(store: WalletView, seed: Seq<u8>) -> (WalletView, Result<IdentityView, WalletError>) {
    if store.key_file is Some {
        (store, Err(WalletError::IdentityExists))
    } else {
        match identity_of_seed(seed) {
            None => (store, Err(WalletError::CorruptKey)),
            Some(identity) => match jwk_text(CURVE@, identity.public_key, seed) {
                None => (store, Err(WalletError::Storage)),
                Some(text) => if key_file_identity(text) == Ok::<IdentityView, WalletError>(identity) {
                    (
                        connected(WalletView { key_file: Some(text), ..store }, SELF_ALIAS@, identity.did),
                        Ok(identity),
                    )
                } else {
                    (store, Err(WalletError::Storage))
                },
            },
        }
    }
}

/// Store and identity after the wallet made sure that it has an identity:
/// the one it holds, or else the one of `seed`, installed.
pub open spec fn ensured(store: WalletView, seed: Seq<u8>) -> (WalletView, Result<IdentityView, WalletError>) {
    match store.key_file {
        Some(text) => (store, key_file_identity(text)),
        None => installed(store, seed),
    }
}

/// The view of an identity or an error.
pub open spec fn identity_outcome(outcome: Result<Identity, WalletError>) -> Result<IdentityView, WalletError> {
    match outcome {
        Ok(identity) => Ok(identity@),
        Err(e) => Err(e),
    }
}

/// Reads an identity out of the text of a key file.
pub fn read_key_file(text: &str) -> (outcome: Result<Identity, WalletError>)
    ensures
        identity_outcome(outcome) == key_file_identity(text@),
        outcome matches Ok(identity) ==> identity.wf(),
{
    let (curve, public_key, private_key) = match decode_jwk(text) {
        Some(keys) => keys,
        None => {
            return Err(WalletError::CorruptKey);
        },
    };
    let identity = match Identity::from_seed(&private_key) {
        Some(identity) => identity,
        None => {
            return Err(WalletError::CorruptKey);
        },
    };
    if same_text(curve.as_str(), CURVE) && same_bytes(public_key.as_slice(), identity.public_key().as_slice()) {
        Ok(identity)
    } else {
        Err(WalletError::CorruptKey)
    }
}

/// The identity that the store holds. `Storage` where it holds no key file,
/// `CorruptKey` where the key file holds no Ed25519 key pair.
pub fn load_identity(store: &WalletStore) -> (outcome: Result<Identity, WalletError>)
    ensures
        identity_outcome(outcome) == loaded(store@),
        outcome matches Ok(identity) ==> identity.wf(),
{
    match store.key_file() {
        Some(text) => read_key_file(text.as_str()),
        None => Err(WalletError::Storage),
    }
}

/// Installs the identity of `seed`: writes the key file and connects the
/// wallet to itself under the alias `self`. An identity that the store holds
/// is never replaced.
pub fn install_identity(store: &mut WalletStore, seed: &Vec<u8>) -> (outcome: Result<Identity, WalletError>)
    requires
        old(store).wf(),
    ensures
        final(store).wf(),
        (final(store)@, identity_outcome(outcome)) == installed(old(store)@, seed@),
        outcome matches Ok(identity) ==> identity.wf(),
{
    if store.key_file().is_some() {
        return Err(WalletError::IdentityExists);
    }
    let identity = match Identity::from_seed(seed) {
        Some(identity) => identity,
        None => {
            return Err(WalletError::CorruptKey);
        },
    };
    let text = match encode_jwk(CURVE, identity.public_key(), seed) {
        Some(text) => text,
        None => {
            return Err(WalletError::Storage);
        },
    };
    let reads_back = match read_key_file(text.as_str()) {
        Ok(back) => same_bytes(back.seed().as_slice(), seed.as_slice()),
        Err(_) => false,
    };
    proof {
        identity.lemma_wf();
    }
    if !reads_back {
        return Err(WalletError::Storage);
    }
    store.set_key_file(text);
    let _ = connect(store, SELF_ALIAS, identity.did());
    Ok(identity)
}

/// Makes sure that the wallet has an identity, with `seed` at hand in case it
/// has none yet: an identity that the store holds is read, and `seed` is not
/// looked at; otherwise the identity of `seed` is installed.
pub fn ensure_identity_with(store: &mut WalletStore, seed: &Vec<u8>) -> (outcome: Result<Identity, WalletError>)
    requires
        old(store).wf(),
    ensures
        final(store).wf(),
        (final(store)@, identity_outcome(outcome)) == ensured(old(store)@, seed@),
        outcome matches Ok(identity) ==> identity.wf(),
{
    if store.key_file().is_some() {
        load_identity(store)
    } else {
        install_identity(store, seed)
    }
}

/// Makes sure that the wallet has an identity. One that the store holds is
/// read and nothing is written. Otherwise a seed is drawn from the operating
/// system's random source and its identity is installed; `Storage` where the
/// source gives none.
pub fn ensure_identity(store: &mut WalletStore) -> (outcome: Result<Identity, WalletError>)
    requires
        old(store).wf(),
    ensures
        final(store).wf(),
        outcome matches Ok(identity) ==> identity.wf(),
        old(store)@.key_file is Some ==> final(store)@ == old(store)@ && identity_outcome(outcome) == loaded(
            old(store)@,
        ),
        old(store)@.key_file is None ==> (final(store)@ == old(store)@ && outcome == Err::<
            Identity,
            WalletError,
        >(WalletError::Storage)) || exists|seed: Seq<u8>|
            (final(store)@, identity_outcome(outcome)) == #[trigger] installed(old(store)@, seed),
{
    if store.key_file().is_some() {
        load_identity(store)
    } else {
        match fresh_seed() {
            Some(seed) => install_identity(store, &seed),
            None => Err(WalletError::Storage),
        }
    }
}

/// The DID document of the wallet's own identity.
pub fn self_did_document(store: &WalletStore) -> (outcome: Result<DidDocument, WalletError>)
    ensures
        match outcome {
            Ok(document) => loaded(store@) matches Ok(identity) && document@ == did_document(identity.public_key)
                && document@.id == identity.did,
            Err(e) => loaded(store@) == Err::<IdentityView, WalletError>(e),
        },
{
    match load_identity(store) {
        Ok(identity) => Ok(identity.document()),
        Err(e) => Err(e),
    }
}

/// The DID document of the wallet's own identity, whole, as indented JSON.
pub fn self_did_document_text(store: &WalletStore) -> (outcome: Result<String, WalletError>)
    ensures
        match outcome {
            Ok(text) => loaded(store@) matches Ok(identity) && text@ == did_document_text(identity.public_key),
            Err(e) => loaded(store@) == Err::<IdentityView, WalletError>(e),
        },
{
    match load_identity(store) {
        Ok(identity) => Ok(identity.document_text()),
        Err(e) => Err(e),
    }
}

/// Making sure twice is making sure once: the second time gives the identity
/// of the first and leaves the store as the first left it, whatever seed is
/// at hand.
pub proof fn lemma_ensure_identity_idempotent(store: WalletView, first_seed: Seq<u8>, second_seed: Seq<u8>)
    requires
        ensured(store, first_seed).1 is Ok,
    ensures
        ensured(ensured(store, first_seed).0, second_seed) == ensured(store, first_seed),
{
}

} // verus!
