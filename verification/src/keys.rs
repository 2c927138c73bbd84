//! Key material: what the key crates derive from a seed, from a public key
//! and from a DID, each behind a contract over plain bytes and text.

use vstd::prelude::*;
use vstd::utf8::encode_utf8;

verus! {

/// Length in bytes of an Ed25519 seed, of an Ed25519 public key and of an
/// X25519 shared secret.
pub const KEY_LEN: usize = 32;

/// The Ed25519 public key that belongs to a 32-byte seed.
pub uninterp spec fn ed25519_public(seed: Seq<u8>) -> Seq<u8>;

/// Whether 32 bytes are the compressed form of a point on the Ed25519 curve.
pub uninterp spec fn ed25519_point(public_key: Seq<u8>) -> bool;

/// The did:key document of an Ed25519 public key, without its key material.
pub uninterp spec fn did_document(public_key: Seq<u8>) -> DidDocumentView;

/// The did:key document of an Ed25519 public key, whole, as indented JSON.
pub uninterp spec fn did_document_text(public_key: Seq<u8>) -> Seq<char>;

/// The method-specific id that `did_url` reads out of a DID, if it parses.
pub uninterp spec fn did_method_id(did: Seq<char>) -> Option<Seq<char>>;

/// The bytes that a base58 text stands for, if it is one.
pub uninterp spec fn base58_decoded(text: Seq<char>) -> Option<Seq<u8>>;

/// The public key of the key pair that `did_key` resolves a DID to.
pub uninterp spec fn resolved_key(did: Seq<char>) -> Option<Seq<u8>>;

/// The X25519 secret that the holder of `seed` shares with the holder of the
/// Ed25519 public key `peer`.
pub uninterp spec fn shared_secret(seed: Seq<u8>, peer: Seq<u8>) -> Seq<u8>;

/// The JSON Web Key text of an octet key pair.
pub uninterp spec fn jwk_text(curve: Seq<char>, public_key: Seq<u8>, private_key: Seq<u8>) -> Option<Seq<char>>;

/// Curve, public key and private key of a JSON Web Key text that holds an
/// octet key pair with its private part.
pub uninterp spec fn jwk_keys(text: Seq<char>) -> Option<(Seq<char>, Seq<u8>, Seq<u8>)>;

/// The texts of an optional list.
pub open spec fn texts(list: Option<Vec<String>>) -> Option<Seq<Seq<char>>> {
    match list {
        Some(v) => Some(v@.map_values(|s: String| s@)),
        None => None,
    }
}

/// A DID document as far as the wallet reads it: the identifier and the
/// verification relationships, each a list of verification-method ids.
pub struct DidDocument {
    pub context: String,
    pub id: String,
    pub assertion_method: Option<Vec<String>>,
    pub authentication: Option<Vec<String>>,
    pub capability_delegation: Option<Vec<String>>,
    pub capability_invocation: Option<Vec<String>>,
    pub key_agreement: Option<Vec<String>>,
}

/// What a `DidDocument` holds, as text.
pub struct DidDocumentView {
    pub context: Seq<char>,
    pub id: Seq<char>,
    pub assertion_method: Option<Seq<Seq<char>>>,
    pub authentication: Option<Seq<Seq<char>>>,
    pub capability_delegation: Option<Seq<Seq<char>>>,
    pub capability_invocation: Option<Seq<Seq<char>>>,
    pub key_agreement: Option<Seq<Seq<char>>>,
}

impl View for DidDocument {
    type V = DidDocumentView;

    open spec fn view(&self) -> DidDocumentView {
        DidDocumentView {
            context: self.context@,
            id: self.id@,
            assertion_method: texts(self.assertion_method),
            authentication: texts(self.authentication),
            capability_delegation: texts(self.capability_delegation),
            capability_invocation: texts(self.capability_invocation),
            key_agreement: texts(self.key_agreement),
        }
    }
}

/// Fills 32 bytes from the operating system's random source with
/// `rand::RngCore::try_fill_bytes` on `rand::rngs::OsRng` and passes them
/// through `ed25519_dalek::SecretKey::from_bytes`. Every call may give other
/// bytes, so nothing is said of them. `None` when the source fails.
#[verifier::external_body]
pub(crate) fn fresh_seed() -> (seed: Option<Vec<u8>>)
{
    let mut bytes = [0u8; 32];
    match rand::RngCore::try_fill_bytes(&mut rand::rngs::OsRng, &mut bytes) {
        Ok(()) => match ed25519_dalek::SecretKey::from_bytes(&bytes) {
            Ok(key) => Some(key.to_bytes().to_vec()),
            Err(_) => None,
        },
        Err(_) => None,
    }
}

/// Calls `did_key::Ed25519KeyPair::from_seed` and reads the public key back
/// with `KeyMaterial::public_key_bytes`. With a seed of exactly 32 bytes the
/// key pair depends on the seed alone; with any other length did_key draws a
/// random one, so those are left out.
#[verifier::external_body]
pub(crate) fn derive_public_key(seed: &Vec<u8>) -> (public_key: Vec<u8>)
    requires
        seed@.len() == KEY_LEN,
    ensures
        public_key@ == ed25519_public(seed@),
{
    did_key::KeyMaterial::public_key_bytes(&did_key::Ed25519KeyPair::from_seed(seed.as_slice()))
}

/// Calls `ed25519_dalek::PublicKey::from_bytes` and says whether it accepts
/// the bytes: it does where they are 32 and decompress to a curve point.
#[verifier::external_body]
pub(crate) fn is_curve_point(public_key: &Vec<u8>) -> (ok: bool)
    ensures
        ok == ed25519_point(public_key@),
{
    ed25519_dalek::PublicKey::from_bytes(public_key.as_slice()).is_ok()
}

/// Calls `did_key::Ed25519KeyPair::from_public_key` and
/// `DIDCore::get_did_document` with `CONFIG_LD_PUBLIC`, and moves the
/// identifier and the relationship lists into a `DidDocument`. did_key panics
/// on bytes that are no curve point, so those are left out.
#[verifier::external_body]
pub(crate) fn derive_document(public_key: &Vec<u8>) -> (document: DidDocument)
    requires
        ed25519_point(public_key@),
    ensures
        document@ == did_document(public_key@),
{
    let pair = did_key::Ed25519KeyPair::from_public_key(public_key.as_slice());
    let doc = did_key::DIDCore::get_did_document(&pair, did_key::CONFIG_LD_PUBLIC);
    DidDocument {
        context: doc.context,
        id: doc.id,
        assertion_method: doc.assertion_method,
        authentication: doc.authentication,
        capability_delegation: doc.capability_delegation,
        capability_invocation: doc.capability_invocation,
        key_agreement: doc.key_agreement,
    }
}

/// Calls `did_key::Ed25519KeyPair::from_public_key`, `DIDCore::get_did_document`
/// with `CONFIG_LD_PUBLIC` and `serde_json::to_string_pretty` on the
/// document; the text is only named. did_key panics on bytes that are no
/// curve point, so those are left out. Writing into memory has nothing to
/// fail on; were it to hand back an error, the empty text stands for it.
#[verifier::external_body]
pub(crate) fn write_document(public_key: &Vec<u8>) -> (text: String)
    requires
        ed25519_point(public_key@),
    ensures
        text@ == did_document_text(public_key@),
{
    let pair = did_key::Ed25519KeyPair::from_public_key(public_key.as_slice());
    let doc = did_key::DIDCore::get_did_document(&pair, did_key::CONFIG_LD_PUBLIC);
    match serde_json::to_string_pretty(&doc) {
        Ok(text) => text,
        Err(_) => String::new(),
    }
}

/// Calls `did_url::DID::parse` and reads `method_id` from what it accepts.
/// did_url counts in 32 bits, so texts beyond that reach are left out.
#[verifier::external_body]
pub(crate) fn parse_method_id(did: &str) -> (id: Option<String>)
    requires
        encode_utf8(did@).len() <= MAX_DID_BYTES,
    ensures
        texts_of(id) == did_method_id(did@),
{
    match did_url::DID::parse(did) {
        Ok(parsed) => Some(parsed.method_id().to_string()),
        Err(_) => None,
    }
}

/// Calls `bs58::decode` with the default alphabet and `into_vec`.
#[verifier::external_body]
pub(crate) fn decode_base58(text: &str) -> (bytes: Option<Vec<u8>>)
    ensures
        bytes_of(bytes) == base58_decoded(text@),
{
    bs58::decode(text).into_vec().ok()
}

/// Calls `did_key::resolve` and reads the public key back with
/// `KeyMaterial::public_key_bytes`. did_key strips the `z` from the
/// method-specific id, decodes the rest as base58, reads the first two bytes
/// as the key type and hands the others to that key type. It panics where
/// fewer than two bytes are decoded, where they name a type it does not know,
/// and where the rest is no key of that type: the `requires` admits only a
/// DID that carries an Ed25519 key that is a curve point.
#[verifier::external_body]
pub(crate) fn resolve_checked(did: &str) -> (public_key: Option<Vec<u8>>)
    requires
        carried_key(did@) is Some,
    ensures
        bytes_of(public_key) == resolved_key(did@),
{
    match did_key::resolve(did) {
        Ok(pair) => Some(did_key::KeyMaterial::public_key_bytes(&pair)),
        Err(_) => None,
    }
}

/// Builds both Ed25519 key pairs with `did_key::Ed25519KeyPair::from_seed` and
/// `from_public_key`, maps each to X25519 with `get_x25519`, and calls
/// `Ecdh::key_exchange`. The result is the 32-byte X25519 shared secret. The
/// last clause is the agreement that Diffie-Hellman is for: the holder of the
/// other seed, exchanging with this seed's public key, gets the same secret.
/// did_key panics on a peer key that is no curve point, and draws a random
/// key for a seed of another length than 32.
#[verifier::external_body]
pub(crate) fn exchange_keys(seed: &Vec<u8>, peer: &Vec<u8>) -> (secret: Vec<u8>)
    requires
        seed@.len() == KEY_LEN,
        ed25519_point(peer@),
    ensures
        secret@ == shared_secret(seed@, peer@),
        secret@.len() == KEY_LEN,
        forall|other: Seq<u8>|
            other.len() == KEY_LEN && peer@ == ed25519_public(other) ==> secret@ == #[trigger] shared_secret(
                other,
                ed25519_public(seed@),
            ),
{
    let mine = did_key::Ed25519KeyPair::from_seed(seed.as_slice()).get_x25519();
    let theirs = did_key::Ed25519KeyPair::from_public_key(peer.as_slice()).get_x25519();
    did_key::Ecdh::key_exchange(&mine, &theirs)
}

/// Builds an `ssi::jwk::JWK` with octet-key-pair parameters and serialises it
/// with `serde_json::to_string`.
#[verifier::external_body]
pub(crate) fn encode_jwk(curve: &str, public_key: &Vec<u8>, private_key: &Vec<u8>) -> (text: Option<String>)
    ensures
        texts_of(text) == jwk_text(curve@, public_key@, private_key@),
{
    let okp = ssi::jwk::OctetParams {
        curve: curve.to_string(),
        public_key: ssi::jwk::Base64urlUInt(public_key.clone()),
        private_key: Some(ssi::jwk::Base64urlUInt(private_key.clone())),
    };
    let (public_key_use, key_operations, algorithm, key_id) = (None, None, None, None);
    let (x509_url, x509_certificate_chain) = (None, None);
    let (x509_thumbprint_sha1, x509_thumbprint_sha256) = (None, None);
    let params = ssi::jwk::Params::OKP(okp);
    let jwk = ssi::jwk::JWK { params, public_key_use, key_operations, algorithm, key_id, x509_url,
        x509_certificate_chain, x509_thumbprint_sha1, x509_thumbprint_sha256 };
    serde_json::to_string(&jwk).ok()
}

/// Parses an `ssi::jwk::JWK` with `serde_json::from_str` and moves out the
/// curve and both keys of an octet key pair that has its private part.
#[verifier::external_body]
pub(crate) fn decode_jwk(text: &str) -> (keys: Option<(String, Vec<u8>, Vec<u8>)>)
    ensures
        keys_of(keys) == jwk_keys(text@),
{
    match serde_json::from_str::<ssi::jwk::JWK>(text) {
        Ok(jwk) => match jwk.params {
            ssi::jwk::Params::OKP(okp) => match okp.private_key {
                Some(private_key) => Some((okp.curve, okp.public_key.0, private_key.0)),
                None => None,
            },
            ssi::jwk::Params::EC(_) => None,
            ssi::jwk::Params::RSA(_) => None,
            ssi::jwk::Params::Symmetric(_) => None,
        },
        Err(_) => None,
    }
}

/// The text of an optional string.
pub open spec fn texts_of(text: Option<String>) -> Option<Seq<char>> {
    match text {
        Some(s) => Some(s@),
        None => None,
    }
}

/// The bytes of an optional byte vector.
pub open spec fn bytes_of(bytes: Option<Vec<u8>>) -> Option<Seq<u8>> {
    match bytes {
        Some(b) => Some(b@),
        None => None,
    }
}

/// The contents of an optional key triple.
pub open spec fn keys_of(keys: Option<(String, Vec<u8>, Vec<u8>)>) -> Option<(Seq<char>, Seq<u8>, Seq<u8>)> {
    match keys {
        Some((curve, public_key, private_key)) => Some((curve@, public_key@, private_key@)),
        None => None,
    }
}

/// Multicodec prefix of an Ed25519 public key, first byte.
pub const ED25519_CODEC_0: u8 = 0xed;

/// Multicodec prefix of an Ed25519 public key, second byte.
pub const ED25519_CODEC_1: u8 = 0x01;

/// The longest text, in bytes, that is looked at as a DID: the DID parser
/// counts places in 32 bits.
pub const MAX_DID_BYTES: usize = 0xffff_ffff;

/// The Ed25519 public key that the text of a did:key identifier carries: its
/// method-specific id is `z` followed by the base58 form of the two codec
/// bytes and a 32-byte curve point. A text of more than `MAX_DID_BYTES`
/// bytes carries none.
pub open spec fn carried_key(did: Seq<char>) -> Option<Seq<u8>> {
    if encode_utf8(did).len() > MAX_DID_BYTES {
        None
    } else {
        match did_method_id(did) {
            None => None,
            Some(id) => if id.len() == 0 || id[0] != 'z' {
                None
            } else {
                match base58_decoded(id.skip(1)) {
                    None => None,
                    Some(bytes) => if bytes.len() == KEY_LEN + 2 && bytes[0] == ED25519_CODEC_0 && bytes[1]
                        == ED25519_CODEC_1 && ed25519_point(bytes.skip(2)) {
                        Some(bytes.skip(2))
                    } else {
                        None
                    },
                }
            },
        }
    }
}

/// The Ed25519 public key of a did:key identifier: the key that its text
/// carries, where the key library resolves the identifier to the same key.
pub open spec fn did_key_of(did: Seq<char>) -> Option<Seq<u8>> {
    match carried_key(did) {
        Some(key) => if resolved_key(did) == Some(key) {
            Some(key)
        } else {
            None
        },
        None => None,
    }
}

} // verus!
