//! Identities: the wallet's own, with its seed, and those of its peers, known
//! by their DID alone.

use vstd::prelude::*;
use crate::keys::{
    carried_key, derive_document, derive_public_key, decode_base58, did_document, did_document_text, did_key_of,
    ed25519_point, ed25519_public, exchange_keys, is_curve_point, parse_method_id, resolve_checked, shared_secret,
    write_document, DidDocument, ED25519_CODEC_0, ED25519_CODEC_1, KEY_LEN, MAX_DID_BYTES,
};
use crate::text::{chars_of, same_bytes};

verus! {

/// Reads the Ed25519 public key out of the text of a did:key identifier.
fn read_carried_key(did: &str) -> (public_key: Option<Vec<u8>>)
    ensures
        match public_key {
            Some(key) => carried_key(did@) == Some(key@) && key@.len() == KEY_LEN,
            None => carried_key(did@) is None,
        },
{
    if did.as_bytes().len() > MAX_DID_BYTES {
        return None;
    }
    let id = match parse_method_id(did) {
        Some(id) => id,
        None => {
            return None;
        },
    };
    let id_chars = chars_of(id.as_str());
    if id_chars.len() == 0 || id_chars[0] != 'z' {
        return None;
    }
    let encoded = id.as_str().substring_char(1, id_chars.len());
    assert(encoded@ == id@.skip(1));
    let bytes = match decode_base58(encoded) {
        Some(bytes) => bytes,
        None => {
            return None;
        },
    };
    if bytes.len() != KEY_LEN + 2 || bytes[0] != ED25519_CODEC_0 || bytes[1] != ED25519_CODEC_1 {
        return None;
    }
    let mut key: Vec<u8> = Vec::new();
    let mut i: usize = 2;
    while i < bytes.len()
        invariant
            2 <= i <= bytes@.len(),
            key@ == bytes@.subrange(2, i as int),
        decreases bytes@.len() - i,
    {
        key.push(bytes[i]);
        assert(key@ =~= bytes@.subrange(2, i + 1));
        i += 1;
    }
    assert(key@ =~= bytes@.skip(2));
    if is_curve_point(&key) {
        Some(key)
    } else {
        None
    }
}

/// The Ed25519 public key of the did:key identifier `did`, or `None` where
/// `did` is no did:key identifier of an Ed25519 key. The key is read out of
/// the text, and the key library, asked to resolve the identifier, has to
/// give the same.
pub fn resolve_did_key(did: &str) -> (public_key: Option<Vec<u8>>)
    ensures
        match public_key {
            Some(key) => did_key_of(did@) == Some(key@) && key@.len() == KEY_LEN,
            None => did_key_of(did@) is None,
        },
{
    let key = match read_carried_key(did) {
        Some(key) => key,
        None => {
            return None;
        },
    };
    match resolve_checked(did) {
        Some(resolved) => {
            if same_bytes(resolved.as_slice(), key.as_slice()) {
                Some(key)
            } else {
                None
            }
        },
        None => None,
    }
}

/// What is known of a peer: its DID and the Ed25519 public key it carries.
pub struct PublicIdentity {
    did: String,
    public_key: Vec<u8>,
}

/// A `PublicIdentity` as plain values.
pub struct PublicIdentityView {
    pub did: Seq<char>,
    pub public_key: Seq<u8>,
}

/// Whether `public_key` has a did:key identity: it is a curve point, and
/// the DID that its document names carries the same key again.
pub open spec fn key_has_identity(public_key: Seq<u8>) -> bool {
    &&& public_key.len() == KEY_LEN
    &&& ed25519_point(public_key)
    &&& did_key_of(did_document(public_key).id) == Some(public_key)
}

/// The public identity of a key: the key and the DID of its document.
pub open spec fn identity_of_key(public_key: Seq<u8>) -> Option<PublicIdentityView> {
    if key_has_identity(public_key) {
        Some(PublicIdentityView { did: did_document(public_key).id, public_key })
    } else {
        None
    }
}

/// The public identity that a DID resolves to: that of the key it carries.
pub open spec fn identity_of_did(did: Seq<char>) -> Option<PublicIdentityView> {
    match did_key_of(did) {
        Some(public_key) => identity_of_key(public_key),
        None => None,
    }
}

impl View for PublicIdentity {
    type V = PublicIdentityView;

    closed spec fn view(&self) -> PublicIdentityView {
        PublicIdentityView { did: self.did@, public_key: self.public_key@ }
    }
}

impl PublicIdentity {
    /// The DID is that of the key, and resolves to the key.
    pub closed spec fn wf(&self) -> bool {
        identity_of_key(self.public_key@) == Some(self@)
    }

    /// What `wf` says, for callers outside this module.
    pub proof fn lemma_wf(&self)
        requires
            self.wf(),
        ensures
            identity_of_key(self@.public_key) == Some(self@),
            identity_of_did(self@.did) == Some(self@),
    {
    }

    /// The public identity of an Ed25519 public key.
    pub fn from_public_key(public_key: &Vec<u8>) -> (identity: Option<PublicIdentity>)
        ensures
            match identity {
                Some(p) => p.wf() && identity_of_key(public_key@) == Some(p@),
                None => identity_of_key(public_key@) is None,
            },
    {
        if public_key.len() != KEY_LEN {
            return None;
        }
        if !is_curve_point(public_key) {
            return None;
        }
        let document = derive_document(public_key);
        match resolve_did_key(document.id.as_str()) {
            Some(back) => {
                if same_bytes(back.as_slice(), public_key.as_slice()) {
                    Some(PublicIdentity { did: document.id, public_key: back })
                } else {
                    None
                }
            },
            None => None,
        }
    }

    /// The public identity that `did` resolves to: the key that `did` carries,
    /// under the DID that this key's document names.
    pub fn resolve(did: &str) -> (identity: Option<PublicIdentity>)
        ensures
            match identity {
                Some(p) => p.wf() && identity_of_did(did@) == Some(p@),
                None => identity_of_did(did@) is None,
            },
    {
        match resolve_did_key(did) {
            Some(public_key) => PublicIdentity::from_public_key(&public_key),
            None => None,
        }
    }

    /// The DID.
    pub fn did(&self) -> (did: &str)
        ensures
            did@ == self@.did,
    {
        self.did.as_str()
    }

    /// The Ed25519 public key.
    pub fn public_key(&self) -> (key: &Vec<u8>)
        ensures
            key@ == self@.public_key,
    {
        &self.public_key
    }

    /// The DID document of this identity.
    pub fn document(&self) -> (document: DidDocument)
        requires
            self.wf(),
        ensures
            document@ == did_document(self@.public_key),
            document@.id == self@.did,
    {
        derive_document(&self.public_key)
    }

    /// The DID document of this identity, whole, as indented JSON.
    pub fn document_text(&self) -> (text: String)
        requires
            self.wf(),
        ensures
            text@ == did_document_text(self@.public_key),
    {
        write_document(&self.public_key)
    }

    /// A copy.
    pub fn copy(&self) -> (other: PublicIdentity)
        ensures
            other@ == self@,
            self.wf() ==> other.wf(),
    {
        PublicIdentity { did: self.did.clone(), public_key: self.public_key.clone() }
    }
}

/// The wallet's own identity: an Ed25519 seed, the public key derived from it
/// and the DID of that key.
pub struct Identity {
    seed: Vec<u8>,
    public: PublicIdentity,
}

/// An `Identity` as plain values.
pub struct IdentityView {
    pub seed: Seq<u8>,
    pub did: Seq<char>,
    pub public_key: Seq<u8>,
}

/// The identity of a seed: the seed with the public identity of its key.
pub open spec fn identity_of_seed(seed: Seq<u8>) -> Option<IdentityView> {
    if seed.len() == KEY_LEN {
        match identity_of_key(ed25519_public(seed)) {
            Some(p) => Some(IdentityView { seed, did: p.did, public_key: p.public_key }),
            None => None,
        }
    } else {
        None
    }
}

impl View for Identity {
    type V = IdentityView;

    closed spec fn view(&self) -> IdentityView {
        IdentityView { seed: self.seed@, did: self.public@.did, public_key: self.public@.public_key }
    }
}

impl Identity {
    /// The identity is that of its seed.
    pub closed spec fn wf(&self) -> bool {
        &&& self.public.wf()
        &&& identity_of_seed(self.seed@) == Some(self@)
    }

    /// What `wf` says, for callers outside this module.
    pub proof fn lemma_wf(&self)
        requires
            self.wf(),
        ensures
            identity_of_seed(self@.seed) == Some(self@),
            identity_of_did(self@.did) == Some(
                PublicIdentityView { did: self@.did, public_key: self@.public_key },
            ),
    {
    }

    /// The identity of a 32-byte seed; `None` for any other length, and where
    /// the key crates give the derived key no DID that resolves back to it.
    pub fn from_seed(seed: &Vec<u8>) -> (identity: Option<Identity>)
        ensures
            match identity {
                Some(i) => i.wf() && identity_of_seed(seed@) == Some(i@),
                None => identity_of_seed(seed@) is None,
            },
    {
        if seed.len() != KEY_LEN {
            return None;
        }
        let public_key = derive_public_key(seed);
        match PublicIdentity::from_public_key(&public_key) {
            Some(public) => Some(Identity { seed: seed.clone(), public }),
            None => None,
        }
    }

    /// The DID.
    pub fn did(&self) -> (did: &str)
        ensures
            did@ == self@.did,
    {
        self.public.did()
    }

    /// The seed, which is the private key.
    pub fn seed(&self) -> (seed: &Vec<u8>)
        ensures
            seed@ == self@.seed,
    {
        &self.seed
    }

    /// The Ed25519 public key.
    pub fn public_key(&self) -> (key: &Vec<u8>)
        ensures
            key@ == self@.public_key,
    {
        self.public.public_key()
    }

    /// The public part: what a peer knows of this identity.
    pub fn public(&self) -> (public: PublicIdentity)
        requires
            self.wf(),
        ensures
            public.wf(),
            public@.did == self@.did,
            public@.public_key == self@.public_key,
    {
        self.public.copy()
    }

    /// The DID document of this identity.
    pub fn document(&self) -> (document: DidDocument)
        requires
            self.wf(),
        ensures
            document@ == did_document(self@.public_key),
            document@.id == self@.did,
    {
        self.public.document()
    }

    /// The DID document of this identity, whole, as indented JSON.
    pub fn document_text(&self) -> (text: String)
        requires
            self.wf(),
        ensures
            text@ == did_document_text(self@.public_key),
    {
        self.public.document_text()
    }

    /// The secret that this identity shares with `peer`. Whoever holds the
    /// seed of `peer` shares the same secret with this identity.
    pub fn agree(&self, peer: &PublicIdentity) -> (secret: Vec<u8>)
        requires
            self.wf(),
            peer.wf(),
        ensures
            secret@ == shared_secret(self@.seed, peer@.public_key),
            secret@.len() == KEY_LEN,
            forall|other: IdentityView|
                identity_of_seed(other.seed) == Some(other) && other.public_key == peer@.public_key
                    ==> secret@ == #[trigger] shared_secret(other.seed, self@.public_key),
    {
        exchange_keys(&self.seed, &peer.public_key)
    }
}

} // verus!
