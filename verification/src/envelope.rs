//! Sealed envelopes: a message encrypted from one identity to another under
//! the secret the two share, with the sender named in the open header.

use vstd::prelude::*;
use vstd::utf8::{decode_utf8, encode_utf8, valid_utf8};
use crate::errors::WalletError;
use crate::identity::{identity_of_did, identity_of_seed, Identity, IdentityView, PublicIdentity, PublicIdentityView};
use crate::keys::{fresh_seed, shared_secret, texts_of, KEY_LEN};
use crate::text::{same_bytes, same_text};

verus! {

/// Length in bytes of the nonce of a sealed envelope.
pub const NONCE_LEN: usize = 24;

/// Seconds for which a sealed message is meant to be read. Advisory: an
/// envelope opens after that time as before.
pub const DEFAULT_TTL: u64 = 3600;

/// The open part of an envelope that the wallet reads before it decrypts.
pub struct EnvelopeHeader {
    pub from: Option<String>,
    pub to: Vec<String>,
    pub nonce_len: usize,
    pub ciphertext: Vec<u8>,
}

/// An `EnvelopeHeader` as plain values.
pub struct EnvelopeHeaderView {
    pub from: Option<Seq<char>>,
    pub to: Seq<Seq<char>>,
    pub nonce_len: usize,
    pub ciphertext: Seq<u8>,
}

impl View for EnvelopeHeader {
    type V = EnvelopeHeaderView;

    open spec fn view(&self) -> EnvelopeHeaderView {
        EnvelopeHeaderView {
            from: texts_of(self.from),
            to: self.to@.map_values(|s: String| s@),
            nonce_len: self.nonce_len,
            ciphertext: self.ciphertext@,
        }
    }
}

/// Why the envelope library did not hand out a message.
#[derive(Clone, Copy, Debug, PartialEq, Eq, Structural)]
pub enum ReceiveFailure {
    /// The cipher rejected the ciphertext under the key.
    Cipher,
    /// Anything else: the envelope or what it held could not be read.
    Other,
}

/// The header that the envelope library reads out of an envelope's text.
pub uninterp spec fn envelope_header(envelope: Seq<char>) -> Option<EnvelopeHeaderView>;

/// The ciphertext that an envelope carries.
pub open spec fn envelope_ciphertext(envelope: Seq<char>) -> Option<Seq<u8>> {
    match envelope_header(envelope) {
        Some(header) => Some(header.ciphertext),
        None => None,
    }
}

/// The field of the open header that holds the message id.
pub const ID_FIELD: &'static str = "id";

/// The field of the open header that holds the time of making.
pub const CREATED_FIELD: &'static str = "created_time";

/// The field of the open header that holds the expiry.
pub const EXPIRES_FIELD: &'static str = "expires_time";

/// The number that stands under a field of an envelope's open header.
pub uninterp spec fn envelope_number(envelope: Seq<char>, field: Seq<char>) -> Option<u64>;

/// The message id in an envelope's open header.
pub open spec fn envelope_id(envelope: Seq<char>) -> Option<u64> {
    envelope_number(envelope, ID_FIELD@)
}

/// The time, in seconds since 1970, at which an envelope says it was made.
pub open spec fn envelope_created(envelope: Seq<char>) -> Option<u64> {
    envelope_number(envelope, CREATED_FIELD@)
}

/// The time, in seconds since 1970, from which on an envelope is meant to
/// be stale.
pub open spec fn envelope_expires(envelope: Seq<char>) -> Option<u64> {
    envelope_number(envelope, EXPIRES_FIELD@)
}

/// The expiry of a message made at `created` that is meant to be read for
/// `ttl` seconds: their sum, or the largest time where the sum is beyond it.
pub open spec fn expiry_of(created: u64, ttl: u64) -> u64 {
    if created + ttl > u64::MAX {
        u64::MAX
    } else {
        (created + ttl) as u64
    }
}

/// Body and message id that the envelope library hands out for an envelope
/// and a key.
pub uninterp spec fn received(envelope: Seq<char>, key: Seq<u8>) -> Result<(Seq<u8>, u64), ReceiveFailure>;

/// The view of an optional header.
pub open spec fn header_of(header: Option<EnvelopeHeader>) -> Option<EnvelopeHeaderView> {
    match header {
        Some(h) => Some(h@),
        None => None,
    }
}

/// The view of what was received.
pub open spec fn receipt_of(receipt: Result<(Vec<u8>, u64), ReceiveFailure>) -> Result<(Seq<u8>, u64), ReceiveFailure> {
    match receipt {
        Ok((body, id)) => Ok((body@, id)),
        Err(e) => Err(e),
    }
}

/// Whether an envelope is the sealed form of a message: its open header
/// names the sender and the one recipient and carries a nonce of full
/// length, the message id and both times, and under the key the envelope
/// library hands out the body under that id.
pub open spec fn sealed_as(
    envelope: Seq<char>,
    id: u64,
    from: Seq<char>,
    to: Seq<char>,
    body: Seq<u8>,
    key: Seq<u8>,
    created: u64,
    expires: u64,
) -> bool {
    &&& match envelope_header(envelope) {
        Some(h) => h.from == Some(from) && h.to == seq![to] && h.nonce_len == NONCE_LEN,
        None => false,
    }
    &&& envelope_id(envelope) == Some(id)
    &&& envelope_created(envelope) == Some(created)
    &&& envelope_expires(envelope) == Some(expires)
    &&& received(envelope, key) == Ok::<(Seq<u8>, u64), ReceiveFailure>((body, id))
}

/// Parses a `didcomm_rs::Jwe` with `serde_json::from_str` and reads the
/// sender, the recipients, the nonce's length and the ciphertext.
#[verifier::external_body]
pub(crate) fn read_header(envelope: &str) -> (header: Option<EnvelopeHeader>)
    ensures
        header_of(header) == envelope_header(envelope@),
{
    match serde_json::from_str::<didcomm_rs::Jwe>(envelope) {
        Ok(jwe) => Some(
            EnvelopeHeader {
                from: jwe.from().clone(),
                to: jwe.to().to_vec(),
                nonce_len: jwe.header.get_iv().len(),
                ciphertext: jwe.payload().to_vec(),
            },
        ),
        Err(_) => None,
    }
}

/// Parses the envelope as a `serde_json::Value` and reads the number under
/// a field with `get` and `as_u64`.
#[verifier::external_body]
pub(crate) fn read_number(envelope: &str, field: &str) -> (number: Option<u64>)
    ensures
        number == envelope_number(envelope@, field@),
{
    match serde_json::from_str::<serde_json::Value>(envelope) {
        Ok(value) => match value.get(field) {
            Some(number) => number.as_u64(),
            None => None,
        },
        Err(_) => None,
    }
}

/// Reads the clock with `std::time::SystemTime::now` and counts the seconds
/// since 1970. Every call may give another time; `None` where the clock
/// stands before 1970.
#[verifier::external_body]
pub(crate) fn current_time() -> (seconds: Option<u64>)
{
    match std::time::SystemTime::now().duration_since(std::time::UNIX_EPOCH) {
        Ok(since) => Some(since.as_secs()),
        Err(_) => None,
    }
}

/// Builds a `didcomm_rs::Message` from `from` to `to` with the body, marks
/// it for XChaCha20-Poly1305 with `as_jwe`, writes both times into its
/// header, reads the id the library drew for it, and calls `seal` with the
/// key. Id and nonce are drawn by chance, so nothing is said of what comes
/// back. The cipher panics on a key of another length than 32. The library
/// draws on the operating system's random source, which the caller asks
/// first.
#[verifier::external_body]
pub(crate) fn seal_message(from: &str, to: &str, body: &[u8], key: &Vec<u8>, created: u64, expires: u64) -> (sealed:
    Option<(String, u64)>)
    requires
        key@.len() == KEY_LEN,
{
    let cipher = didcomm_rs::crypto::CryptoAlgorithm::XC20P;
    let message = didcomm_rs::Message::new().from(from).to(&[to]).body(body).as_jwe(&cipher);
    let mut header = message.get_didcomm_header().clone();
    header.created_time = Some(created);
    header.expires_time = Some(expires);
    let id = header.id as u64;
    match message.set_didcomm_header(header).seal(key.as_slice()) {
        Ok(envelope) => Some((envelope, id)),
        Err(_) => None,
    }
}

/// Calls `didcomm_rs::Message::receive` with the key and no validation key,
/// and reads body and id of the message it hands out. The cipher panics on a
/// key of another length than 32 and on a nonce of more than 24 bytes.
#[verifier::external_body]
pub(crate) fn receive_message(envelope: &str, key: &Vec<u8>) -> (receipt: Result<(Vec<u8>, u64), ReceiveFailure>)
    requires
        key@.len() == KEY_LEN,
        envelope_header(envelope@) matches Some(h) ==> h.nonce_len <= NONCE_LEN,
    ensures
        receipt_of(receipt) == received(envelope@, key@),
{
    match didcomm_rs::Message::receive(envelope, Some(key.as_slice()), None) {
        Ok(message) => Ok((message.body.clone(), message.get_didcomm_header().id as u64)),
        Err(didcomm_rs::Error::PlugCryptoFailure) => Err(ReceiveFailure::Cipher),
        Err(_) => Err(ReceiveFailure::Other),
    }
}

/// Calls `String::from_utf8`, which accepts exactly the valid UTF-8 byte
/// strings and decodes them.
#[verifier::external_body]
pub(crate) fn text_from_utf8(bytes: Vec<u8>) -> (text: Option<String>)
    ensures
        match text {
            Some(t) => valid_utf8(bytes@) && t@ == decode_utf8(bytes@),
            None => !valid_utf8(bytes@),
        },
{
    String::from_utf8(bytes).ok()
}

/// A sealed envelope, the message id that it carries, and the time at which
/// it was made.
pub struct Sealed {
    pub envelope: String,
    pub id: u64,
    pub created: u64,
}

/// What an envelope held: the message, its id, and who sent it.
pub struct Opened {
    pub plaintext: String,
    pub id: u64,
    pub sender: PublicIdentity,
}

/// An `Opened` as plain values.
pub struct OpenedView {
    pub plaintext: Seq<char>,
    pub id: u64,
    pub sender: PublicIdentityView,
}

impl View for Opened {
    type V = OpenedView;

    open spec fn view(&self) -> OpenedView {
        OpenedView { plaintext: self.plaintext@, id: self.id, sender: self.sender@ }
    }
}

/// What opening `envelope` as `recipient` gives. The sender is read from the
/// open header and resolved; the key is the secret that the recipient shares
/// with that sender.
pub open spec fn opened(envelope: Seq<char>, recipient: IdentityView) -> Result<OpenedView, WalletError> {
    match envelope_header(envelope) {
        None => Err(WalletError::MalformedEnvelope),
        Some(header) => match header.from {
            None => Err(WalletError::MalformedEnvelope),
            Some(from) => match identity_of_did(from) {
                None => Err(WalletError::MalformedEnvelope),
                Some(sender) => if header.nonce_len > NONCE_LEN {
                    Err(WalletError::MalformedEnvelope)
                } else {
                    match received(envelope, shared_secret(recipient.seed, sender.public_key)) {
                        Err(ReceiveFailure::Cipher) => Err(WalletError::Decryption),
                        Err(ReceiveFailure::Other) => Err(WalletError::MalformedEnvelope),
                        Ok((body, id)) => if valid_utf8(body) {
                            Ok(OpenedView { plaintext: decode_utf8(body), id, sender })
                        } else {
                            Err(WalletError::MalformedEnvelope)
                        },
                    }
                },
            },
        },
    }
}

/// The view of an opening's outcome.
pub open spec fn outcome_of(outcome: Result<Opened, WalletError>) -> Result<OpenedView, WalletError> {
    match outcome {
        Ok(o) => Ok(o@),
        Err(e) => Err(e),
    }
}

/// What holds of an envelope sealed from `from` to `to` around `plaintext`
/// for `ttl` seconds: the header names both, carries the id and the time of
/// making, and sets the expiry `ttl` seconds after it; and whoever holds the
/// seed of `to` opens it to the same message, under the same id, from the
/// same sender.
pub open spec fn sealed_for(
    sealed: Sealed,
    from: IdentityView,
    to: PublicIdentityView,
    plaintext: Seq<char>,
    ttl: u64,
) -> bool {
    &&& match envelope_header(sealed.envelope@) {
        Some(h) => h.from == Some(from.did) && h.to == seq![to.did],
        None => false,
    }
    &&& envelope_id(sealed.envelope@) == Some(sealed.id)
    &&& envelope_created(sealed.envelope@) == Some(sealed.created)
    &&& envelope_expires(sealed.envelope@) == Some(expiry_of(sealed.created, ttl))
    &&& forall|recipient: IdentityView|
        identity_of_seed(recipient.seed) == Some(recipient) && recipient.public_key == to.public_key
            ==> #[trigger] opened(sealed.envelope@, recipient) == Ok::<OpenedView, WalletError>(
            OpenedView {
                plaintext,
                id: sealed.id,
                sender: PublicIdentityView { did: from.did, public_key: from.public_key },
            },
        )
}

/// Whether `envelope` is the sealed form of the message, by reading it back:
/// the open header is read, and the envelope is opened under the key.
fn reads_back(
    envelope: &str,
    id: u64,
    from: &str,
    to: &str,
    body: &[u8],
    key: &Vec<u8>,
    created: u64,
    expires: u64,
) -> (ok: bool)
    requires
        key@.len() == KEY_LEN,
    ensures
        ok == sealed_as(envelope@, id, from@, to@, body@, key@, created, expires),
{
    let header = match read_header(envelope) {
        Some(header) => header,
        None => {
            return false;
        },
    };
    let named = match &header.from {
        Some(sender) => same_text(sender.as_str(), from),
        None => false,
    };
    if !named || header.to.len() != 1 || header.nonce_len != NONCE_LEN {
        assert(header@.to.len() == header.to@.len());
        assert(seq![to@].len() == 1);
        return false;
    }
    if !same_text(header.to[0].as_str(), to) {
        assert(header@.to[0] != to@);
        return false;
    }
    assert(header@.to =~= seq![to@]);
    if message_id(envelope) != Some(id) || created_time(envelope) != Some(created) || expires_time(envelope)
        != Some(expires) {
        return false;
    }
    match receive_message(envelope, key) {
        Ok((got, got_id)) => same_bytes(got.as_slice(), body) && got_id == id,
        Err(_) => false,
    }
}

/// What sealing comes to, given what the envelope library handed back for
/// the message: the envelope with its id and time where it reads back as the
/// sealed form of the message under the key, and `SealRefused` otherwise.
/// The wallet hands out no envelope that would not open to what was sealed.
pub fn confirm_sealed(
    handed_back: Option<(String, u64)>,
    from: &str,
    to: &str,
    plaintext: &str,
    key: &Vec<u8>,
    created: u64,
    expires: u64,
) -> (outcome: Result<Sealed, WalletError>)
    ensures
        match handed_back {
            Some((envelope, id)) => if key@.len() == KEY_LEN && sealed_as(
                envelope@,
                id,
                from@,
                to@,
                encode_utf8(plaintext@),
                key@,
                created,
                expires,
            ) {
                outcome == Ok::<Sealed, WalletError>(Sealed { envelope, id, created })
            } else {
                outcome == Err::<Sealed, WalletError>(WalletError::SealRefused)
            },
            None => outcome == Err::<Sealed, WalletError>(WalletError::SealRefused),
        },
{
    match handed_back {
        Some((envelope, id)) => {
            if key.len() == KEY_LEN && reads_back(
                envelope.as_str(),
                id,
                from,
                to,
                plaintext.as_bytes(),
                key,
                created,
                expires,
            ) {
                Ok(Sealed { envelope, id, created })
            } else {
                Err(WalletError::SealRefused)
            }
        },
        None => Err(WalletError::SealRefused),
    }
}

/// Seals `plaintext` from `from` to `to` as made at `created`, to be read
/// for `ttl` seconds. The key is the secret that the two share. The envelope
/// library draws the message id and the nonce, so two calls give two
/// envelopes; each is read back before it is handed out, and is as
/// `sealed_for` says. `SealRefused` where the random source that the library
/// draws on gives nothing, where the library hands no envelope back, or one
/// that does not read back as it should.
pub fn seal_at(from: &Identity, to: &PublicIdentity, plaintext: &str, created: u64, ttl: u64) -> (outcome: Result<
    Sealed,
    WalletError,
>)
    requires
        from.wf(),
        to.wf(),
    ensures
        match outcome {
            Ok(sealed) => sealed.created == created && sealed_for(sealed, from@, to@, plaintext@, ttl),
            Err(e) => e == WalletError::SealRefused,
        },
{
    if fresh_seed().is_none() {
        return Err(WalletError::SealRefused);
    }
    let secret = from.agree(to);
    let expires = created.saturating_add(ttl);
    proof {
        from.lemma_wf();
        to.lemma_wf();
    }
    let handed_back = seal_message(from.did(), to.did(), plaintext.as_bytes(), &secret, created, expires);
    let outcome = confirm_sealed(handed_back, from.did(), to.did(), plaintext, &secret, created, expires);
    proof {
        if let Ok(ref sealed) = outcome {
            let sender = PublicIdentityView { did: from@.did, public_key: from@.public_key };
            assert forall|recipient: IdentityView|
                identity_of_seed(recipient.seed) == Some(recipient) && recipient.public_key
                    == to@.public_key implies #[trigger] opened(sealed.envelope@, recipient) == Ok::<
                OpenedView,
                WalletError,
            >(OpenedView { plaintext: plaintext@, id: sealed.id, sender }) by {
                assert(secret@ == shared_secret(recipient.seed, from@.public_key));
                assert(identity_of_did(from@.did) == Some(sender));
                vstd::utf8::encode_utf8_valid_utf8(plaintext@);
                vstd::utf8::encode_utf8_decode_utf8(plaintext@);
            }
        }
    }
    outcome
}

/// Seals `plaintext` from `from` to `to`, to be read for `ttl` seconds from
/// now. `NoClock` where the clock gives no time.
pub fn seal(from: &Identity, to: &PublicIdentity, plaintext: &str, ttl: u64) -> (outcome: Result<Sealed, WalletError>)
    requires
        from.wf(),
        to.wf(),
    ensures
        match outcome {
            Ok(sealed) => sealed_for(sealed, from@, to@, plaintext@, ttl),
            Err(e) => e == WalletError::SealRefused || e == WalletError::NoClock,
        },
{
    match current_time() {
        Some(now) => seal_at(from, to, plaintext, now, ttl),
        None => Err(WalletError::NoClock),
    }
}

/// What is sealed to an identity opens for it: to the same message, under
/// the same id, from the same sender.
pub proof fn lemma_round_trip(
    sealed: Sealed,
    from: IdentityView,
    to: IdentityView,
    plaintext: Seq<char>,
    ttl: u64,
)
    requires
        identity_of_seed(to.seed) == Some(to),
        sealed_for(sealed, from, PublicIdentityView { did: to.did, public_key: to.public_key }, plaintext, ttl),
    ensures
        opened(sealed.envelope@, to) == Ok::<OpenedView, WalletError>(
            OpenedView {
                plaintext,
                id: sealed.id,
                sender: PublicIdentityView { did: from.did, public_key: from.public_key },
            },
        ),
{
}

/// What an identity seals to itself opens for it.
pub proof fn lemma_self_round_trip(sealed: Sealed, me: IdentityView, plaintext: Seq<char>, ttl: u64)
    requires
        identity_of_seed(me.seed) == Some(me),
        sealed_for(sealed, me, PublicIdentityView { did: me.did, public_key: me.public_key }, plaintext, ttl),
    ensures
        opened(sealed.envelope@, me) == Ok::<OpenedView, WalletError>(
            OpenedView {
                plaintext,
                id: sealed.id,
                sender: PublicIdentityView { did: me.did, public_key: me.public_key },
            },
        ),
{
}

/// Opens `envelope` as `recipient`.
pub fn open(envelope: &str, recipient: &Identity) -> (outcome: Result<Opened, WalletError>)
    requires
        recipient.wf(),
    ensures
        outcome_of(outcome) == opened(envelope@, recipient@),
        outcome matches Ok(o) ==> o.sender.wf(),
{
    let header = match read_header(envelope) {
        Some(header) => header,
        None => {
            return Err(WalletError::MalformedEnvelope);
        },
    };
    let from = match &header.from {
        Some(from) => from,
        None => {
            return Err(WalletError::MalformedEnvelope);
        },
    };
    let sender = match PublicIdentity::resolve(from.as_str()) {
        Some(sender) => sender,
        None => {
            return Err(WalletError::MalformedEnvelope);
        },
    };
    if header.nonce_len > NONCE_LEN {
        return Err(WalletError::MalformedEnvelope);
    }
    let secret = recipient.agree(&sender);
    match receive_message(envelope, &secret) {
        Err(ReceiveFailure::Cipher) => Err(WalletError::Decryption),
        Err(ReceiveFailure::Other) => Err(WalletError::MalformedEnvelope),
        Ok((body, id)) => match text_from_utf8(body) {
            Some(plaintext) => Ok(Opened { plaintext, id, sender }),
            None => Err(WalletError::MalformedEnvelope),
        },
    }
}

/// The message id in the open header of `envelope`.
pub fn message_id(envelope: &str) -> (id: Option<u64>)
    ensures
        id == envelope_id(envelope@),
{
    read_number(envelope, ID_FIELD)
}

/// The time at which `envelope` says it was made.
pub fn created_time(envelope: &str) -> (seconds: Option<u64>)
    ensures
        seconds == envelope_created(envelope@),
{
    read_number(envelope, CREATED_FIELD)
}

/// The time from which on `envelope` is meant to be stale.
pub fn expires_time(envelope: &str) -> (seconds: Option<u64>)
    ensures
        seconds == envelope_expires(envelope@),
{
    read_number(envelope, EXPIRES_FIELD)
}

/// The ciphertext that `envelope` carries.
pub fn ciphertext(envelope: &str) -> (bytes: Option<Vec<u8>>)
    ensures
        crate::keys::bytes_of(bytes) == envelope_ciphertext(envelope@),
{
    match read_header(envelope) {
        Some(header) => Some(header.ciphertext),
        None => None,
    }
}

/// The open header of `envelope`.
pub fn header(envelope: &str) -> (header: Option<EnvelopeHeader>)
    ensures
        header_of(header) == envelope_header(envelope@),
{
    read_header(envelope)
}

} // verus!
