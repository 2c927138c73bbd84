//! The wallet's operations: each reads what it needs from the store, works
//! on it, and keeps what is to be kept.

use vstd::prelude::*;
use crate::credential::{
    date_of_time, date_text, issue, issued, present, presented, presentation_outcome, request_outcome,
    CredentialRequest, CredentialType, PresentationRequest,
};
use crate::envelope::{
    ciphertext, created_time, current_time, envelope_ciphertext, envelope_created, envelope_header, envelope_id,
    header, message_id, open, opened, seal, seal_at, sealed_for, EnvelopeHeaderView, Sealed,
};
use crate::errors::{of_party, Role, WalletError};
use crate::identity::{identity_of_did, Identity, IdentityView, PublicIdentity, PublicIdentityView};
use crate::identity::identity_of_seed;
use crate::keystore::{installed, load_identity, loaded, SELF_ALIAS};
use crate::registry::{resolve_alias, resolve_did, resolved_alias, resolved_did};
use crate::store::{kept_on, shelf_of, Shelf, WalletStore, WalletView};
use crate::text::{same_bytes, same_text};
use crate::verification::{
    awaited, step, stepped, Answer, AnswerView, Expectation, ExpectationView, Progress, ProgressView, Request, Verdict,
    VerdictView,
};

verus! {

/// The peer behind an alias: the public identity that the DID of the
/// connection resolves to.
pub open spec fn peer_of(store: WalletView, alias: Seq<char>) -> Result<PublicIdentityView, WalletError> {
    match resolved_did(store, alias) {
        Err(e) => Err(e),
        Ok(did) => match identity_of_did(did) {
            Some(peer) => Ok(peer),
            None => Err(WalletError::UnresolvableDid(Role::Peer)),
        },
    }
}

/// The wallet's identity together with the peer behind an alias.
pub open spec fn parties_of(store: WalletView, alias: Seq<char>) -> Result<(IdentityView, PublicIdentityView), WalletError> {
    match loaded(store) {
        Err(e) => Err(e),
        Ok(me) => match peer_of(store, alias) {
            Err(e) => Err(e),
            Ok(peer) => Ok((me, peer)),
        },
    }
}

/// The public part of an identity.
pub open spec fn public_of(identity: IdentityView) -> PublicIdentityView {
    PublicIdentityView { did: identity.did, public_key: identity.public_key }
}

/// The peer that is known under `alias`.
pub fn peer(store: &WalletStore, alias: &str) -> (outcome: Result<PublicIdentity, WalletError>)
    requires
        store.wf(),
    ensures
        match outcome {
            Ok(p) => p.wf() && peer_of(store@, alias@) == Ok::<PublicIdentityView, WalletError>(p@),
            Err(e) => peer_of(store@, alias@) == Err::<PublicIdentityView, WalletError>(e),
        },
{
    let did = match resolve_did(store, alias) {
        Ok(did) => did,
        Err(e) => {
            return Err(e);
        },
    };
    match PublicIdentity::resolve(did.as_str()) {
        Some(peer) => Ok(peer),
        None => Err(WalletError::UnresolvableDid(Role::Peer)),
    }
}

/// The wallet's own identity and the peer that is known under `alias`.
pub fn parties(store: &WalletStore, alias: &str) -> (outcome: Result<(Identity, PublicIdentity), WalletError>)
    requires
        store.wf(),
    ensures
        match outcome {
            Ok((me, p)) => me.wf() && p.wf() && parties_of(store@, alias@) == Ok::<
                (IdentityView, PublicIdentityView),
                WalletError,
            >((me@, p@)),
            Err(e) => parties_of(store@, alias@) == Err::<(IdentityView, PublicIdentityView), WalletError>(e),
        },
{
    let me = match load_identity(store) {
        Ok(me) => me,
        Err(e) => {
            return Err(e);
        },
    };
    match peer(store, alias) {
        Ok(p) => Ok((me, p)),
        Err(e) => Err(e),
    }
}

/// Whether sealing failed for one of the reasons that lie outside the
/// wallet: the clock gave no time, or the envelope library refused.
pub open spec fn outside_refusal(e: WalletError) -> bool {
    e == WalletError::SealRefused || e == WalletError::NoClock
}

/// What holds after the wallet sealed `text` to the peer behind `alias`:
/// the envelope is sealed from the wallet's identity to that peer; it fails
/// as finding the two fails, or for a reason outside the wallet.
pub open spec fn sealed_to(
    store: WalletView,
    alias: Seq<char>,
    text: Seq<char>,
    ttl: u64,
    outcome: Result<Sealed, WalletError>,
) -> bool {
    match outcome {
        Ok(sealed) => match parties_of(store, alias) {
            Ok((me, to)) => sealed_for(sealed, me, to, text, ttl),
            Err(_) => false,
        },
        Err(e) => match parties_of(store, alias) {
            Ok(_) => outside_refusal(e),
            Err(reason) => e == reason,
        },
    }
}

/// Seals `text` from the wallet to the peer known under `alias`. Nothing is
/// kept.
pub fn seal_to(store: &WalletStore, alias: &str, text: &str, ttl: u64) -> (outcome: Result<Sealed, WalletError>)
    requires
        store.wf(),
    ensures
        sealed_to(store@, alias@, text@, ttl, outcome),
{
    match parties(store, alias) {
        Ok((me, to)) => seal(&me, &to, text, ttl),
        Err(e) => Err(e),
    }
}

/// An outgoing message: the envelope for the peer, and the copy sealed to the
/// wallet itself that was kept.
pub struct Written {
    pub outgoing: Sealed,
    pub kept: Sealed,
}

/// Whether a shelf keeps another envelope under `id` already.
pub open spec fn taken(store: WalletView, shelf: Shelf, id: u64, envelope: Seq<char>) -> bool {
    shelf_of(store, shelf).contains_key(id) && shelf_of(store, shelf)[id] != envelope
}

/// Store and outcome after keeping `envelope` under `id` on a shelf: it is
/// kept where the id is free or keeps the same envelope already, and
/// `IdTaken` with the id, and the store as it was, where it keeps another.
pub open spec fn kept_new(store: WalletView, shelf: Shelf, id: u64, envelope: Seq<char>) -> (
    WalletView,
    Result<(), WalletError>,
) {
    if taken(store, shelf, id, envelope) {
        (store, Err(WalletError::IdTaken(id)))
    } else {
        (kept_on(store, shelf, id, envelope), Ok(()))
    }
}

/// Keeps `envelope` under `id` on a shelf. What is kept is never written
/// over: where the shelf keeps another envelope under `id`, nothing changes.
pub fn keep(store: &mut WalletStore, shelf: Shelf, id: u64, envelope: &str) -> (outcome: Result<(), WalletError>)
    requires
        old(store).wf(),
    ensures
        final(store).wf(),
        (final(store)@, outcome) == kept_new(old(store)@, shelf, id, envelope@),
{
    match kept(store, shelf, id) {
        Ok(there) => {
            if same_text(there.as_str(), envelope) {
                assert(kept_on(store@, shelf, id, envelope@) == store@) by {
                    assert(shelf_of(store@, shelf).insert(id, envelope@) =~= shelf_of(store@, shelf));
                }
                Ok(())
            } else {
                Err(WalletError::IdTaken(id))
            }
        },
        Err(_) => {
            let _ = store.put_record(shelf, id, envelope);
            Ok(())
        },
    }
}

/// The envelope kept under `id` on a shelf.
pub fn kept(store: &WalletStore, shelf: Shelf, id: u64) -> (outcome: Result<String, WalletError>)
    requires
        store.wf(),
    ensures
        match outcome {
            Ok(e) => shelf_of(store@, shelf).contains_key(id) && shelf_of(store@, shelf)[id] == e@,
            Err(e) => e == WalletError::UnknownRecord(id) && !shelf_of(store@, shelf).contains_key(id),
        },
{
    match store.shelf(shelf).get(id) {
        Some(envelope) => Ok(envelope),
        None => Err(WalletError::UnknownRecord(id)),
    }
}

/// The ids under which a shelf keeps something, in ascending order of id.
/// The order says nothing of when the records were made; the time of making
/// of each is in its `summary`.
pub fn listing(store: &WalletStore, shelf: Shelf) -> (ids: Vec<u64>)
    requires
        store.wf(),
    ensures
        forall|i: int, j: int| 0 <= i < j < ids@.len() ==> ids@[i] < ids@[j],
        forall|id: u64| shelf_of(store@, shelf).contains_key(id) <==> ids@.contains(id),
{
    store.shelf(shelf).ids()
}

/// Whether two envelopes carry ciphertexts, and not the same.
pub open spec fn ciphertexts_differ(one: Seq<char>, other: Seq<char>) -> bool {
    &&& envelope_ciphertext(one) is Some
    &&& envelope_ciphertext(other) is Some
    &&& envelope_ciphertext(one) != envelope_ciphertext(other)
}

/// Whether the wallet keeps anything under `id`, on whichever shelf.
pub open spec fn known(store: WalletView, id: u64) -> bool {
    store.messages.contains_key(id) || store.credentials.contains_key(id) || store.presentations.contains_key(id)
}

/// Whether the wallet keeps anything under `id`, on whichever shelf.
pub fn knows(store: &WalletStore, id: u64) -> (there: bool)
    requires
        store.wf(),
    ensures
        there == known(store@, id),
{
    kept(store, Shelf::Messages, id).is_ok() || kept(store, Shelf::Credentials, id).is_ok() || kept(
        store,
        Shelf::Presentations,
        id,
    ).is_ok()
}

/// Store and outcome after the two envelopes of one sending were filed: the
/// copy and the outgoing envelope are refused with `SealRefused` where they
/// came out with one id or do not carry two different ciphertexts, and with
/// `IdTaken` where the wallet keeps something under the id of either, the
/// copy's looked at first; otherwise the copy is kept on the shelf under
/// its own id. Where it fails, nothing is kept.
pub open spec fn filed(store: WalletView, shelf: Shelf, kept: Sealed, outgoing: Sealed) -> (
    WalletView,
    Result<Written, WalletError>,
) {
    if kept.id == outgoing.id || !ciphertexts_differ(kept.envelope@, outgoing.envelope@) {
        (store, Err(WalletError::SealRefused))
    } else if known(store, kept.id) {
        (store, Err(WalletError::IdTaken(kept.id)))
    } else if known(store, outgoing.id) {
        (store, Err(WalletError::IdTaken(outgoing.id)))
    } else {
        (kept_on(store, shelf, kept.id, kept.envelope@), Ok(Written { outgoing, kept }))
    }
}

/// Whether two envelopes carry ciphertexts, and not the same.
fn differ_in_ciphertext(one: &str, other: &str) -> (differ: bool)
    ensures
        differ == ciphertexts_differ(one@, other@),
{
    match (ciphertext(one), ciphertext(other)) {
        (Some(a), Some(b)) => !same_bytes(a.as_slice(), b.as_slice()),
        _ => false,
    }
}

/// Files the two envelopes of one sending: the copy sealed to the wallet
/// itself and the envelope that goes out. They have to differ in id and in
/// ciphertext, and their ids have to be new to the wallet; the copy is then
/// kept on the shelf under its own id.
pub fn file_sent(store: &mut WalletStore, shelf: Shelf, kept: Sealed, outgoing: Sealed) -> (outcome: Result<
    Written,
    WalletError,
>)
    requires
        old(store).wf(),
    ensures
        final(store).wf(),
        (final(store)@, outcome) == filed(old(store)@, shelf, kept, outgoing),
{
    if kept.id == outgoing.id || !differ_in_ciphertext(kept.envelope.as_str(), outgoing.envelope.as_str()) {
        return Err(WalletError::SealRefused);
    }
    if knows(store, kept.id) {
        return Err(WalletError::IdTaken(kept.id));
    }
    if knows(store, outgoing.id) {
        return Err(WalletError::IdTaken(outgoing.id));
    }
    let _ = store.put_record(shelf, kept.id, kept.envelope.as_str());
    Ok(Written { outgoing, kept })
}

/// What holds after the wallet sent `text` to the peer behind `alias` and
/// kept a copy. Where the wallet's identity or the peer is not found, the
/// store is as it was and the outcome is that error. Otherwise either the
/// clock gave no time or an envelope could not be sealed, and the store is
/// as it was; or two envelopes were sealed at one time, one to the wallet
/// itself and one to the peer, and store and outcome are what filing the two
/// comes to.
pub open spec fn sent_and_kept(
    before: WalletView,
    after: WalletView,
    shelf: Shelf,
    alias: Seq<char>,
    text: Seq<char>,
    ttl: u64,
    outcome: Result<Written, WalletError>,
) -> bool {
    match parties_of(before, alias) {
        Err(reason) => after == before && outcome == Err::<Written, WalletError>(reason),
        Ok((me, to)) => {
            ||| after == before && outcome == Err::<Written, WalletError>(WalletError::NoClock)
            ||| after == before && outcome == Err::<Written, WalletError>(WalletError::SealRefused)
            ||| exists|kept: Sealed, outgoing: Sealed|
                #![trigger filed(before, shelf, kept, outgoing)]
                {
                    &&& sealed_for(kept, me, public_of(me), text, ttl)
                    &&& sealed_for(outgoing, me, to, text, ttl)
                    &&& kept.created == outgoing.created
                    &&& (after, outcome) == filed(before, shelf, kept, outgoing)
                }
        },
    }
}

/// Every sending that succeeds kept a copy sealed to the wallet itself under
/// its own id, and hands out an envelope sealed to the peer that differs
/// from the copy in id and in ciphertext. Both ids are new to the wallet.
pub proof fn lemma_sent(
    before: WalletView,
    after: WalletView,
    shelf: Shelf,
    alias: Seq<char>,
    text: Seq<char>,
    ttl: u64,
    written: Written,
)
    requires
        sent_and_kept(before, after, shelf, alias, text, ttl, Ok::<Written, WalletError>(written)),
    ensures
        parties_of(before, alias) is Ok,
        sealed_for(written.outgoing, parties_of(before, alias)->Ok_0.0, parties_of(before, alias)->Ok_0.1, text, ttl),
        sealed_for(
            written.kept,
            parties_of(before, alias)->Ok_0.0,
            public_of(parties_of(before, alias)->Ok_0.0),
            text,
            ttl,
        ),
        written.kept.created == written.outgoing.created,
        written.kept.id != written.outgoing.id,
        ciphertexts_differ(written.kept.envelope@, written.outgoing.envelope@),
        !known(before, written.kept.id),
        !known(before, written.outgoing.id),
        after == kept_on(before, shelf, written.kept.id, written.kept.envelope@),
{
    let outcome = Ok::<Written, WalletError>(written);
    let me = parties_of(before, alias)->Ok_0.0;
    let to = parties_of(before, alias)->Ok_0.1;
    let (kept, outgoing) = choose|kept: Sealed, outgoing: Sealed|
        #![trigger filed(before, shelf, kept, outgoing)]
        {
            &&& sealed_for(kept, me, public_of(me), text, ttl)
            &&& sealed_for(outgoing, me, to, text, ttl)
            &&& kept.created == outgoing.created
            &&& (after, outcome) == filed(before, shelf, kept, outgoing)
        };
    assert(filed(before, shelf, kept, outgoing).1 == outcome);
    assert(written == Written { outgoing, kept });
}

/// What the wallet sends goes under ids that are new to it: neither the
/// envelope that goes out nor the copy has the id of anything that the
/// wallet kept before, on whichever shelf. So the envelope of a presentation
/// never has the id under which the wallet keeps the credential it presents.
pub proof fn lemma_sent_under_new_ids(
    before: WalletView,
    after: WalletView,
    shelf: Shelf,
    alias: Seq<char>,
    text: Seq<char>,
    ttl: u64,
    written: Written,
    id: u64,
)
    requires
        sent_and_kept(before, after, shelf, alias, text, ttl, Ok::<Written, WalletError>(written)),
        known(before, id),
    ensures
        written.outgoing.id != id,
        written.kept.id != id,
{
    lemma_sent(before, after, shelf, alias, text, ttl, written);
}

/// Seals `text` twice, to the peer known under `alias` and to the wallet
/// itself, and files the two: the copy to itself is kept on a shelf under
/// its message id, so the wallet can read again what it sent. Nothing is
/// kept where anything fails.
pub fn send_and_keep(store: &mut WalletStore, shelf: Shelf, alias: &str, text: &str, ttl: u64) -> (outcome: Result<
    Written,
    WalletError,
>)
    requires
        old(store).wf(),
    ensures
        final(store).wf(),
        sent_and_kept(old(store)@, final(store)@, shelf, alias@, text@, ttl, outcome),
{
    let ghost before = store@;
    let (me, to) = match parties(store, alias) {
        Ok(both) => both,
        Err(e) => {
            return Err(e);
        },
    };
    let now = match current_time() {
        Some(now) => now,
        None => {
            return Err(WalletError::NoClock);
        },
    };
    let myself = me.public();
    let kept = match seal_at(&me, &myself, text, now, ttl) {
        Ok(kept) => kept,
        Err(e) => {
            return Err(e);
        },
    };
    let outgoing = match seal_at(&me, &to, text, now, ttl) {
        Ok(outgoing) => outgoing,
        Err(e) => {
            return Err(e);
        },
    };
    let outcome = file_sent(store, shelf, kept, outgoing);
    assert((store@, outcome) == filed(before, shelf, kept, outgoing));
    outcome
}

/// Writes a message to the peer known under `alias`: the envelope for the
/// peer comes back, and a copy sealed to the wallet itself is kept with the
/// messages.
pub fn write(store: &mut WalletStore, alias: &str, message: &str, ttl: u64) -> (outcome: Result<Written, WalletError>)
    requires
        old(store).wf(),
    ensures
        final(store).wf(),
        sent_and_kept(old(store)@, final(store)@, Shelf::Messages, alias@, message@, ttl, outcome),
{
    send_and_keep(store, Shelf::Messages, alias, message, ttl)
}

/// A message that was read: its id, its text, and the sender under the alias
/// by which the wallet knows it, or under its DID where it knows none.
pub struct Reading {
    pub id: u64,
    pub sender: String,
    pub plaintext: String,
}

/// A `Reading` as plain values.
pub struct ReadingView {
    pub id: u64,
    pub sender: Seq<char>,
    pub plaintext: Seq<char>,
}

impl View for Reading {
    type V = ReadingView;

    open spec fn view(&self) -> ReadingView {
        ReadingView { id: self.id, sender: self.sender@, plaintext: self.plaintext@ }
    }
}

/// What reading an envelope gives: what it opens to under the wallet's own
/// identity.
pub open spec fn read_as(store: WalletView, envelope: Seq<char>) -> Result<ReadingView, WalletError> {
    match loaded(store) {
        Err(e) => Err(e),
        Ok(me) => match opened(envelope, me) {
            Err(e) => Err(e),
            Ok(o) => Ok(
                ReadingView { id: o.id, sender: resolved_alias(store, o.sender.did), plaintext: o.plaintext },
            ),
        },
    }
}

/// The view of a reading or an error.
pub open spec fn reading_outcome(outcome: Result<Reading, WalletError>) -> Result<ReadingView, WalletError> {
    match outcome {
        Ok(r) => Ok(r@),
        Err(e) => Err(e),
    }
}

/// Reads an envelope that is sealed to the wallet.
pub fn read(store: &WalletStore, envelope: &str) -> (outcome: Result<Reading, WalletError>)
    requires
        store.wf(),
    ensures
        reading_outcome(outcome) == read_as(store@, envelope@),
{
    let me = match load_identity(store) {
        Ok(me) => me,
        Err(e) => {
            return Err(e);
        },
    };
    match open(envelope, &me) {
        Ok(o) => Ok(Reading { id: o.id, sender: resolve_alias(store, o.sender.did()), plaintext: o.plaintext }),
        Err(e) => Err(e),
    }
}

/// Store and outcome after an envelope was held on a shelf under the id in
/// its open header: `MalformedEnvelope` where the header carries none, and
/// otherwise what keeping it under that id comes to.
pub open spec fn held(store: WalletView, shelf: Shelf, envelope: Seq<char>) -> (WalletView, Result<u64, WalletError>) {
    match envelope_id(envelope) {
        Some(id) => match kept_new(store, shelf, id, envelope).1 {
            Ok(_) => (kept_new(store, shelf, id, envelope).0, Ok(id)),
            Err(e) => (store, Err(e)),
        },
        None => (store, Err(WalletError::MalformedEnvelope)),
    }
}

/// Holds an envelope as it came, unopened, on a shelf under the message id
/// in its open header.
pub fn hold(store: &mut WalletStore, shelf: Shelf, envelope: &str) -> (outcome: Result<u64, WalletError>)
    requires
        old(store).wf(),
    ensures
        final(store).wf(),
        (final(store)@, outcome) == held(old(store)@, shelf, envelope@),
{
    match message_id(envelope) {
        Some(id) => match keep(store, shelf, id, envelope) {
            Ok(()) => Ok(id),
            Err(e) => Err(e),
        },
        None => Err(WalletError::MalformedEnvelope),
    }
}

/// What reading the record `id` of a shelf gives.
pub open spec fn recalled_as(store: WalletView, shelf: Shelf, id: u64) -> Result<ReadingView, WalletError> {
    if shelf_of(store, shelf).contains_key(id) {
        read_as(store, shelf_of(store, shelf)[id])
    } else {
        Err(WalletError::UnknownRecord(id))
    }
}

/// Reads the record that a shelf keeps under `id`.
pub fn recall(store: &WalletStore, shelf: Shelf, id: u64) -> (outcome: Result<Reading, WalletError>)
    requires
        store.wf(),
    ensures
        reading_outcome(outcome) == recalled_as(store@, shelf, id),
{
    match kept(store, shelf, id) {
        Ok(envelope) => read(store, envelope.as_str()),
        Err(e) => Err(e),
    }
}

/// What the open header of a kept envelope tells: who sent it to whom, each
/// by the alias under which the wallet knows them or else by their DID, when
/// it was made, and how long its ciphertext is.
pub struct Summary {
    pub id: u64,
    pub from: String,
    pub to: String,
    pub created: Option<u64>,
    pub length: usize,
}

/// A `Summary` as plain values.
pub struct SummaryView {
    pub id: u64,
    pub from: Seq<char>,
    pub to: Seq<char>,
    pub created: Option<u64>,
    pub length: nat,
}

impl View for Summary {
    type V = SummaryView;

    open spec fn view(&self) -> SummaryView {
        SummaryView {
            id: self.id,
            from: self.from@,
            to: self.to@,
            created: self.created,
            length: self.length as nat,
        }
    }
}

/// The sender that a header names, as the wallet knows it; empty where it
/// names none.
pub open spec fn sender_named(store: WalletView, header: EnvelopeHeaderView) -> Seq<char> {
    match header.from {
        Some(did) => resolved_alias(store, did),
        None => Seq::empty(),
    }
}

/// The first recipient that a header names, as the wallet knows it; empty
/// where it names none.
pub open spec fn recipient_named(store: WalletView, header: EnvelopeHeaderView) -> Seq<char> {
    if header.to.len() > 0 {
        resolved_alias(store, header.to[0])
    } else {
        Seq::empty()
    }
}

/// The summary of the record that a shelf keeps under `id`.
pub open spec fn summarized(store: WalletView, shelf: Shelf, id: u64) -> Result<SummaryView, WalletError> {
    if !shelf_of(store, shelf).contains_key(id) {
        Err(WalletError::UnknownRecord(id))
    } else {
        let envelope = shelf_of(store, shelf)[id];
        match envelope_header(envelope) {
            None => Err(WalletError::MalformedEnvelope),
            Some(header) => Ok(
                SummaryView {
                    id,
                    from: sender_named(store, header),
                    to: recipient_named(store, header),
                    created: envelope_created(envelope),
                    length: header.ciphertext.len(),
                },
            ),
        }
    }
}

/// The view of a summary or an error.
pub open spec fn summary_outcome(outcome: Result<Summary, WalletError>) -> Result<SummaryView, WalletError> {
    match outcome {
        Ok(s) => Ok(s@),
        Err(e) => Err(e),
    }
}

/// Sums up the record that a shelf keeps under `id`, from its open header
/// alone: nothing is decrypted.
pub fn summary(store: &WalletStore, shelf: Shelf, id: u64) -> (outcome: Result<Summary, WalletError>)
    requires
        store.wf(),
    ensures
        summary_outcome(outcome) == summarized(store@, shelf, id),
{
    let envelope = match kept(store, shelf, id) {
        Ok(envelope) => envelope,
        Err(e) => {
            return Err(e);
        },
    };
    let head = match header(envelope.as_str()) {
        Some(head) => head,
        None => {
            return Err(WalletError::MalformedEnvelope);
        },
    };
    let from = match &head.from {
        Some(did) => resolve_alias(store, did.as_str()),
        None => String::new(),
    };
    let to = if head.to.len() > 0 {
        resolve_alias(store, head.to[0].as_str())
    } else {
        String::new()
    };
    Ok(Summary { id, from, to, created: created_time(envelope.as_str()), length: head.ciphertext.len() })
}

/// What drawing up a credential for the peer behind an alias gives.
pub open spec fn issued_to(
    store: WalletView,
    credential_type: CredentialType,
    alias: Seq<char>,
    issuance_date: Seq<char>,
) -> Result<crate::credential::CredentialRequestView, WalletError> {
    match parties_of(store, alias) {
        Err(e) => Err(e),
        Ok((me, subject)) => issued(credential_type, me, subject, issuance_date),
    }
}

/// Draws up a credential of the given kind about the peer known under
/// `alias`, with the wallet as issuer. What comes back is to be signed, and
/// the signed credential is then sealed to the subject with `seal_to`.
pub fn issue_to(store: &WalletStore, credential_type: CredentialType, alias: &str, issuance_date: &str) -> (outcome:
    Result<CredentialRequest, WalletError>)
    requires
        store.wf(),
    ensures
        request_outcome(outcome) == issued_to(store@, credential_type, alias@, issuance_date@),
{
    match parties(store, alias) {
        Ok((me, subject)) => issue(credential_type, &me, &subject, issuance_date),
        Err(e) => Err(e),
    }
}

/// What drawing up a credential at a time gives: the credential dated with
/// the date of that time, and `NoClock` for a time that has no date.
pub open spec fn issued_at(
    store: WalletView,
    credential_type: CredentialType,
    alias: Seq<char>,
    seconds: u64,
) -> Result<crate::credential::CredentialRequestView, WalletError> {
    match date_of_time(seconds) {
        Some(date) => issued_to(store, credential_type, alias, date),
        None => Err(WalletError::NoClock),
    }
}

/// Draws up a credential of the given kind about the peer known under
/// `alias`, issued at the time that is `seconds` after the beginning of
/// 1970.
pub fn issue_at(store: &WalletStore, credential_type: CredentialType, alias: &str, seconds: u64) -> (outcome: Result<
    CredentialRequest,
    WalletError,
>)
    requires
        store.wf(),
    ensures
        request_outcome(outcome) == issued_at(store@, credential_type, alias@, seconds),
{
    match date_text(seconds) {
        Some(date) => issue_to(store, credential_type, alias, date.as_str()),
        None => Err(WalletError::NoClock),
    }
}

/// What drawing up a presentation of a sealed credential gives.
pub open spec fn presented_from(store: WalletView, envelope: Seq<char>) -> Result<
    crate::credential::PresentationRequestView,
    WalletError,
> {
    match loaded(store) {
        Err(e) => Err(e),
        Ok(me) => match opened(envelope, me) {
            Err(e) => Err(e),
            Ok(o) => presented(o.plaintext, me),
        },
    }
}

/// Opens a credential that is sealed to the wallet and draws up its
/// presentation, with the wallet as holder. What comes back is to be signed,
/// and the signed presentation is then sent with `send_presentation`.
pub fn present_from(store: &WalletStore, envelope: &str) -> (outcome: Result<PresentationRequest, WalletError>)
    requires
        store.wf(),
    ensures
        presentation_outcome(outcome) == presented_from(store@, envelope@),
{
    let me = match load_identity(store) {
        Ok(me) => me,
        Err(e) => {
            return Err(e);
        },
    };
    match open(envelope, &me) {
        Ok(o) => present(o.plaintext.as_str(), &me),
        Err(e) => Err(e),
    }
}

/// Sends a signed presentation to the verifier known under `alias`, and
/// keeps a copy sealed to the wallet itself with the presentations.
pub fn send_presentation(store: &mut WalletStore, alias: &str, presentation: &str, ttl: u64) -> (outcome: Result<
    Written,
    WalletError,
>)
    requires
        old(store).wf(),
    ensures
        final(store).wf(),
        sent_and_kept(old(store)@, final(store)@, Shelf::Presentations, alias@, presentation@, ttl, outcome),
{
    send_and_keep(store, Shelf::Presentations, alias, presentation, ttl)
}

/// A verification on its way: what is expected, the envelope and the
/// presentation it held under its message id, and how far the checks have
/// come. Only answers move it on, and only its own end decides what is kept.
pub struct Verification {
    expectation: Expectation,
    message_id: u64,
    presentation: String,
    envelope: String,
    progress: Progress,
}

/// A `Verification` as plain values.
pub struct VerificationView {
    pub expectation: ExpectationView,
    pub message_id: u64,
    pub presentation: Seq<char>,
    pub envelope: Seq<char>,
    pub progress: ProgressView,
}

impl View for Verification {
    type V = VerificationView;

    closed spec fn view(&self) -> VerificationView {
        VerificationView {
            expectation: self.expectation@,
            message_id: self.message_id,
            presentation: self.presentation@,
            envelope: self.envelope@,
            progress: self.progress@,
        }
    }
}

/// How a verification begins: the expected issuer and subject are the peers
/// behind the two aliases, the presentation is what the envelope opens to,
/// and the presentation's own proof is the first to check. The aliases are
/// resolved before the envelope is looked at, the subject's first, and an
/// alias that does not resolve is reported with the party it was given for.
pub open spec fn verification_of(
    store: WalletView,
    issuer_alias: Seq<char>,
    subject_alias: Seq<char>,
    envelope: Seq<char>,
) -> Result<VerificationView, WalletError> {
    match peer_of(store, subject_alias) {
        Err(e) => Err(of_party(e, Role::Subject)),
        Ok(subject) => match peer_of(store, issuer_alias) {
            Err(e) => Err(of_party(e, Role::Issuer)),
            Ok(issuer) => match read_as(store, envelope) {
                Err(e) => Err(e),
                Ok(reading) => Ok(
                    VerificationView {
                        expectation: ExpectationView { issuer: issuer.did, subject: subject.did },
                        message_id: reading.id,
                        presentation: reading.plaintext,
                        envelope,
                        progress: ProgressView::AwaitingPresentation,
                    },
                ),
            },
        },
    }
}

/// The view of a verification or an error.
pub open spec fn verification_outcome(outcome: Result<Verification, WalletError>) -> Result<VerificationView, WalletError> {
    match outcome {
        Ok(v) => Ok(v@),
        Err(e) => Err(e),
    }
}

/// A verification after an answer: the checks move on, the rest stays.
pub open spec fn answered_with(verification: VerificationView, answer: AnswerView) -> VerificationView {
    VerificationView { progress: stepped(verification.expectation, verification.progress, answer), ..verification }
}

/// Begins the verification of a presentation that is sealed to the wallet.
/// The verifier names the parties it expects by the aliases of its own
/// connections.
pub fn begin_verification(store: &WalletStore, issuer_alias: &str, subject_alias: &str, envelope: &str) -> (outcome:
    Result<Verification, WalletError>)
    requires
        store.wf(),
    ensures
        verification_outcome(outcome) == verification_of(store@, issuer_alias@, subject_alias@, envelope@),
{
    let subject = match peer(store, subject_alias) {
        Ok(subject) => subject,
        Err(e) => {
            return Err(e.of(Role::Subject));
        },
    };
    let issuer = match peer(store, issuer_alias) {
        Ok(issuer) => issuer,
        Err(e) => {
            return Err(e.of(Role::Issuer));
        },
    };
    match read(store, envelope) {
        Ok(reading) => Ok(
            Verification {
                expectation: Expectation { issuer: issuer.did().to_owned(), subject: subject.did().to_owned() },
                message_id: reading.id,
                presentation: reading.plaintext,
                envelope: envelope.to_owned(),
                progress: Progress::AwaitingPresentation,
            },
        ),
        Err(e) => Err(e),
    }
}

impl Verification {
    /// The presentation that the envelope held.
    pub fn presentation(&self) -> (text: &str)
        ensures
            text@ == self@.presentation,
    {
        self.presentation.as_str()
    }

    /// The envelope.
    pub fn envelope(&self) -> (text: &str)
        ensures
            text@ == self@.envelope,
    {
        self.envelope.as_str()
    }

    /// The message id of the presentation.
    pub fn message_id(&self) -> (id: u64)
        ensures
            id == self@.message_id,
    {
        self.message_id
    }

    /// The issuer and subject that the verifier expects.
    pub fn expectation(&self) -> (expectation: &Expectation)
        ensures
            expectation@ == self@.expectation,
    {
        &self.expectation
    }

    /// The check that is to be made next.
    pub fn awaits(&self) -> (request: Request)
        ensures
            request == awaited(self@.progress),
    {
        match &self.progress {
            Progress::AwaitingPresentation => Request::CheckPresentation,
            Progress::AwaitingCredential { credentials, next } => Request::CheckCredential { index: *next },
            Progress::Finished(_) => Request::Stop,
        }
    }

    /// The verdict, once the verification has ended.
    pub fn verdict(&self) -> (verdict: Option<&Verdict>)
        ensures
            match verdict {
                Some(v) => self@.progress == ProgressView::Finished(v@),
                None => !(self@.progress is Finished),
            },
    {
        match &self.progress {
            Progress::Finished(verdict) => Some(verdict),
            _ => None,
        }
    }

    /// Takes the answer to the check that was asked for.
    pub fn answer(self, answer: Answer) -> (next: Verification)
        ensures
            next@ == answered_with(self@, answer@),
    {
        let (progress, _) = step(&self.expectation, self.progress, answer);
        Verification {
            expectation: self.expectation,
            message_id: self.message_id,
            presentation: self.presentation,
            envelope: self.envelope,
            progress,
        }
    }
}

/// Store and outcome after a verification was concluded: a verified
/// presentation is kept with the presentations under its message id, which
/// is handed back; one that is not verified leaves the store as it was, and
/// so does one whose id is taken by another envelope.
pub open spec fn concluded(store: WalletView, verification: VerificationView) -> (
    WalletView,
    Result<Option<u64>, WalletError>,
) {
    if verification.progress == ProgressView::Finished(VerdictView::Verified) {
        match kept_new(store, Shelf::Presentations, verification.message_id, verification.envelope).1 {
            Ok(_) => (
                kept_new(store, Shelf::Presentations, verification.message_id, verification.envelope).0,
                Ok(Some(verification.message_id)),
            ),
            Err(e) => (store, Err(e)),
        }
    } else {
        (store, Ok(None))
    }
}

/// Concludes a verification: keeps the envelope of a verified presentation
/// under its message id and hands the id back.
pub fn conclude_verification(store: &mut WalletStore, verification: &Verification) -> (kept_as: Result<
    Option<u64>,
    WalletError,
>)
    requires
        old(store).wf(),
    ensures
        final(store).wf(),
        (final(store)@, kept_as) == concluded(old(store)@, verification@),
{
    match &verification.progress {
        Progress::Finished(Verdict::Verified) => {
            match keep(store, Shelf::Presentations, verification.message_id, verification.envelope.as_str()) {
                Ok(()) => Ok(Some(verification.message_id)),
                Err(e) => Err(e),
            }
        },
        _ => Ok(None),
    }
}

/// Concluding keeps a presentation only at the end of a verification that
/// every check has passed: with any other verdict, or before the end, it
/// changes nothing.
pub proof fn lemma_only_verified_is_kept(store: WalletView, verification: VerificationView)
    requires
        verification.progress != ProgressView::Finished(VerdictView::Verified),
    ensures
        concluded(store, verification) == (store, Ok::<Option<u64>, WalletError>(None)),
{
}

/// The identity that a store holds is the identity of its own seed.
pub proof fn lemma_loaded_identity(store: WalletView)
    requires
        loaded(store) is Ok,
    ensures
        identity_of_seed(loaded(store)->Ok_0.seed) == Some(loaded(store)->Ok_0),
        identity_of_did(loaded(store)->Ok_0.did) == Some(public_of(loaded(store)->Ok_0)),
{
}

/// A wallet that was given its identity knows itself: it holds that
/// identity, and under the alias `self` it finds its own public part, so it
/// can always write to itself.
pub proof fn lemma_installed_wallet_knows_itself(store: WalletView, seed: Seq<u8>)
    requires
        installed(store, seed).1 is Ok,
    ensures
        ({
            let after = installed(store, seed).0;
            let me = installed(store, seed).1->Ok_0;
            &&& loaded(after) == Ok::<IdentityView, WalletError>(me)
            &&& parties_of(after, SELF_ALIAS@) == Ok::<(IdentityView, PublicIdentityView), WalletError>(
                (me, public_of(me)),
            )
        }),
{
}

/// What a wallet sent is read by the wallet that holds the identity of the
/// peer it was sent to: the same text, under the id of the envelope, from
/// the sender as that wallet knows it. And the wallet that sent it reads the
/// copy it kept.
pub proof fn lemma_sent_is_read(
    before: WalletView,
    after: WalletView,
    shelf: Shelf,
    alias: Seq<char>,
    text: Seq<char>,
    ttl: u64,
    written: Written,
    recipient: WalletView,
)
    requires
        sent_and_kept(before, after, shelf, alias, text, ttl, Ok::<Written, WalletError>(written)),
        loaded(recipient) is Ok,
        parties_of(before, alias) is Ok,
        loaded(recipient)->Ok_0.public_key == parties_of(before, alias)->Ok_0.1.public_key,
    ensures
        ({
            let me = parties_of(before, alias)->Ok_0.0;
            &&& read_as(recipient, written.outgoing.envelope@) == Ok::<ReadingView, WalletError>(
                ReadingView {
                    id: written.outgoing.id,
                    sender: resolved_alias(recipient, me.did),
                    plaintext: text,
                },
            )
            &&& read_as(after, written.kept.envelope@) == Ok::<ReadingView, WalletError>(
                ReadingView { id: written.kept.id, sender: resolved_alias(after, me.did), plaintext: text },
            )
            &&& recalled_as(after, shelf, written.kept.id) == read_as(after, written.kept.envelope@)
        }),
{
    let me = parties_of(before, alias)->Ok_0.0;
    lemma_sent(before, after, shelf, alias, text, ttl, written);
    lemma_loaded_identity(recipient);
    lemma_loaded_identity(before);
    assert(loaded(after) == loaded(before));
}

} // verus!
