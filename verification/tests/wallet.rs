use did_wallet::envelope::{open, seal, DEFAULT_TTL};
use did_wallet::errors::{Role, WalletError};
use did_wallet::identity::Identity;
use did_wallet::keystore::install_identity;
use did_wallet::registry::connect;
use did_wallet::store::{RecordTable, Shelf, WalletStore};
use did_wallet::wallet::{hold, keep, kept, listing, peer, read, recall, seal_to, summary};

fn seed(fill: u8) -> Vec<u8> {
    vec![fill; 32]
}

fn wallet(fill: u8) -> (WalletStore, Identity) {
    let mut store = WalletStore::new();
    let me = install_identity(&mut store, &seed(fill)).unwrap();
    (store, me)
}

fn introduce(store: &mut WalletStore, alias: &str, other: &Identity) {
    connect(store, alias, other.did());
}

#[test]
fn write_seals_to_the_peer_and_keeps_a_copy_for_self() {
    let (mut alice_store, alice) = wallet(1);
    let (bob_store, bob) = wallet(2);
    introduce(&mut alice_store, "bob", &bob);
    let written = did_wallet::wallet::write(&mut alice_store, "bob", "Hi Bob", DEFAULT_TTL).unwrap();
    // Bob reads what was sent
    let reading = read(&bob_store, &written.outgoing.envelope).unwrap();
    assert_eq!(reading.plaintext, "Hi Bob");
    assert_eq!(reading.id, written.outgoing.id);
    assert_eq!(reading.sender, alice.did());
    // Alice kept a copy that she can read, under its own id
    assert_eq!(listing(&alice_store, Shelf::Messages), vec![written.kept.id]);
    assert_ne!(written.kept.id, written.outgoing.id);
    assert_ne!(written.kept.envelope, written.outgoing.envelope);
    let copy = recall(&alice_store, Shelf::Messages, written.kept.id).unwrap();
    assert_eq!(copy.plaintext, "Hi Bob");
    assert_eq!(copy.sender, "self");
    assert_eq!(written.kept.created, written.outgoing.created);
    assert_ne!(
        did_wallet::envelope::ciphertext(&written.kept.envelope),
        did_wallet::envelope::ciphertext(&written.outgoing.envelope)
    );
    // but not the envelope for Bob
    assert_eq!(read(&alice_store, &written.outgoing.envelope).err(), Some(WalletError::Decryption));
    assert_eq!(read(&bob_store, &written.kept.envelope).err(), Some(WalletError::Decryption));
}

#[test]
fn write_to_self_round_trips() {
    let (mut store, _me) = wallet(1);
    let written = did_wallet::wallet::write(&mut store, "self", "Hello self!", DEFAULT_TTL).unwrap();
    assert_ne!(written.kept.id, written.outgoing.id);
    assert_ne!(written.kept.envelope, written.outgoing.envelope);
    let reading = read(&store, &written.outgoing.envelope).unwrap();
    assert_eq!(reading.plaintext, "Hello self!");
    assert_eq!(reading.sender, "self");
    assert_eq!(listing(&store, Shelf::Messages).len(), 1);
}

#[test]
fn write_fails_without_touching_the_store() {
    let (mut store, _me) = wallet(1);
    assert_eq!(
        did_wallet::wallet::write(&mut store, "nobody", "x", DEFAULT_TTL).err(),
        Some(WalletError::UnknownConnection(Role::Peer))
    );
    connect(&mut store, "ghost", "did:web:example.com");
    assert_eq!(
        did_wallet::wallet::write(&mut store, "ghost", "x", DEFAULT_TTL).err(),
        Some(WalletError::UnresolvableDid(Role::Peer))
    );
    assert_eq!(listing(&store, Shelf::Messages), Vec::<u64>::new());
    let mut empty = WalletStore::new();
    connect(&mut empty, "bob", Identity::from_seed(&seed(2)).unwrap().did());
    assert_eq!(did_wallet::wallet::write(&mut empty, "bob", "x", DEFAULT_TTL).err(), Some(WalletError::Storage));
    assert_eq!(seal_to(&empty, "bob", "x", DEFAULT_TTL).err(), Some(WalletError::Storage));
    assert_eq!(listing(&empty, Shelf::Messages), Vec::<u64>::new());
}

#[test]
fn read_names_the_sender_by_alias_or_by_did() {
    let (mut bob_store, bob) = wallet(2);
    let alice = Identity::from_seed(&seed(1)).unwrap();
    let sealed = seal(&alice, &bob.public(), "guess who", DEFAULT_TTL).unwrap();
    assert_eq!(read(&bob_store, &sealed.envelope).unwrap().sender, alice.did());
    introduce(&mut bob_store, "alice", &alice);
    assert_eq!(read(&bob_store, &sealed.envelope).unwrap().sender, "alice");
}

#[test]
fn read_reports_each_failure_by_its_name() {
    let (store, me) = wallet(2);
    assert_eq!(read(&store, "not an envelope").err(), Some(WalletError::MalformedEnvelope));
    let alice = Identity::from_seed(&seed(1)).unwrap();
    let carol = Identity::from_seed(&seed(3)).unwrap();
    let to_carol = seal(&alice, &carol.public(), "psst", DEFAULT_TTL).unwrap();
    assert_eq!(read(&store, &to_carol.envelope).err(), Some(WalletError::Decryption));
    let empty = WalletStore::new();
    let to_me = seal(&alice, &me.public(), "psst", DEFAULT_TTL).unwrap();
    assert_eq!(read(&empty, &to_me.envelope).err(), Some(WalletError::Storage));
    let broken = WalletStore::from_parts(
        Some("garbage".to_string()),
        Vec::new(),
        RecordTable::new(),
        RecordTable::new(),
        RecordTable::new(),
    );
    assert_eq!(read(&broken, &to_me.envelope).err(), Some(WalletError::CorruptKey));
}

#[test]
fn hold_keeps_an_envelope_under_its_message_id() {
    let (mut store, me) = wallet(2);
    let alice = Identity::from_seed(&seed(1)).unwrap();
    let sealed = seal(&alice, &me.public(), "keep me", DEFAULT_TTL).unwrap();
    assert_eq!(hold(&mut store, Shelf::Messages, &sealed.envelope), Ok(sealed.id));
    assert_eq!(kept(&store, Shelf::Messages, sealed.id), Ok(sealed.envelope.clone()));
    assert_eq!(kept(&store, Shelf::Credentials, sealed.id), Err(WalletError::UnknownRecord(sealed.id)));
    assert_eq!(recall(&store, Shelf::Messages, sealed.id).unwrap().plaintext, "keep me");
    assert_eq!(hold(&mut store, Shelf::Messages, "junk"), Err(WalletError::MalformedEnvelope));
    assert_eq!(listing(&store, Shelf::Messages), vec![sealed.id]);
    // holding does not open: an envelope for someone else is kept as well
    let carol = Identity::from_seed(&seed(3)).unwrap();
    let other = seal(&alice, &carol.public(), "not yours", DEFAULT_TTL).unwrap();
    assert_eq!(hold(&mut store, Shelf::Credentials, &other.envelope), Ok(other.id));
    assert_eq!(recall(&store, Shelf::Credentials, other.id).err(), Some(WalletError::Decryption));
    assert_eq!(recall(&store, Shelf::Presentations, other.id).err(), Some(WalletError::UnknownRecord(other.id)));
}

#[test]
fn shelves_do_not_mix() {
    let mut store = WalletStore::new();
    assert_eq!(keep(&mut store, Shelf::Messages, 3, "m3"), Ok(()));
    assert_eq!(keep(&mut store, Shelf::Credentials, 3, "c3"), Ok(()));
    assert_eq!(keep(&mut store, Shelf::Presentations, 1, "p1"), Ok(()));
    assert_eq!(keep(&mut store, Shelf::Messages, 2, "m2"), Ok(()));
    assert_eq!(listing(&store, Shelf::Messages), vec![2, 3]);
    assert_eq!(listing(&store, Shelf::Credentials), vec![3]);
    assert_eq!(listing(&store, Shelf::Presentations), vec![1]);
    assert_eq!(kept(&store, Shelf::Messages, 3), Ok("m3".to_string()));
    assert_eq!(kept(&store, Shelf::Credentials, 3), Ok("c3".to_string()));
    assert_eq!(kept(&store, Shelf::Presentations, 3), Err(WalletError::UnknownRecord(3)));
}

#[test]
fn peer_is_the_identity_behind_an_alias() {
    let (mut store, _me) = wallet(1);
    let bob = Identity::from_seed(&seed(2)).unwrap();
    introduce(&mut store, "bob", &bob);
    let p = peer(&store, "bob").unwrap();
    assert_eq!(p.did(), bob.did());
    assert_eq!(p.public_key(), bob.public_key());
    assert_eq!(peer(&store, "carol").err(), Some(WalletError::UnknownConnection(Role::Peer)));
    connect(&mut store, "odd", "did:key:zzz");
    assert_eq!(peer(&store, "odd").err(), Some(WalletError::UnresolvableDid(Role::Peer)));
}

#[test]
fn seal_to_keeps_nothing() {
    let (mut store, me) = wallet(1);
    let bob = Identity::from_seed(&seed(2)).unwrap();
    introduce(&mut store, "bob", &bob);
    let sealed = seal_to(&store, "bob", "a credential", DEFAULT_TTL).unwrap();
    assert_eq!(listing(&store, Shelf::Messages), Vec::<u64>::new());
    let opened = open(&sealed.envelope, &bob).unwrap();
    assert_eq!(opened.plaintext, "a credential");
    assert_eq!(opened.sender.did(), me.did());
}

#[test]
fn summary_reads_the_open_header_only() {
    let (mut store, me) = wallet(2);
    let alice = Identity::from_seed(&seed(1)).unwrap();
    let carol = Identity::from_seed(&seed(3)).unwrap();
    introduce(&mut store, "alice", &alice);
    let sealed = did_wallet::envelope::seal_at(&alice, &carol.public(), "not for me", 1234, 10).unwrap();
    hold(&mut store, Shelf::Messages, &sealed.envelope).unwrap();
    let s = summary(&store, Shelf::Messages, sealed.id).unwrap();
    assert_eq!(s.id, sealed.id);
    assert_eq!(s.from, "alice");
    assert_eq!(s.to, carol.did());
    assert_eq!(s.created, Some(1234));
    assert_eq!(s.length, did_wallet::envelope::header(&sealed.envelope).unwrap().ciphertext.len());
    assert_eq!(s.length, did_wallet::envelope::ciphertext(&sealed.envelope).unwrap().len());
    assert!(s.length > "not for me".len());
    let to_me = seal(&alice, &me.public(), "for me", DEFAULT_TTL).unwrap();
    hold(&mut store, Shelf::Messages, &to_me.envelope).unwrap();
    assert_eq!(summary(&store, Shelf::Messages, to_me.id).unwrap().to, "self");
    assert_eq!(summary(&store, Shelf::Messages, 1).err(), Some(WalletError::UnknownRecord(1)));
    assert_eq!(summary(&store, Shelf::Credentials, sealed.id).err(), Some(WalletError::UnknownRecord(sealed.id)));
    keep(&mut store, Shelf::Messages, 1, "{\"id\":1}").unwrap();
    assert_eq!(summary(&store, Shelf::Messages, 1).err(), Some(WalletError::MalformedEnvelope));
}

#[test]
fn what_is_kept_is_never_written_over() {
    let mut store = WalletStore::new();
    assert_eq!(keep(&mut store, Shelf::Messages, 7, "first"), Ok(()));
    assert_eq!(keep(&mut store, Shelf::Messages, 7, "second"), Err(WalletError::IdTaken(7)));
    assert_eq!(kept(&store, Shelf::Messages, 7), Ok("first".to_string()));
    // keeping the same again changes nothing and is no error
    assert_eq!(keep(&mut store, Shelf::Messages, 7, "first"), Ok(()));
    assert_eq!(listing(&store, Shelf::Messages), vec![7]);
    // an envelope that claims the id of another is not held
    assert_eq!(keep(&mut store, Shelf::Messages, 5, "{\"id\":5,\"n\":1}"), Ok(()));
    assert_eq!(hold(&mut store, Shelf::Messages, "{\"id\":5,\"n\":2}"), Err(WalletError::IdTaken(5)));
    assert_eq!(hold(&mut store, Shelf::Messages, "{\"id\":5,\"n\":1}"), Ok(5));
    assert_eq!(hold(&mut store, Shelf::Credentials, "{\"id\":5,\"n\":2}"), Ok(5));
    assert_eq!(kept(&store, Shelf::Messages, 5), Ok("{\"id\":5,\"n\":1}".to_string()));
}

fn copy_of(sealed: &did_wallet::envelope::Sealed) -> did_wallet::envelope::Sealed {
    did_wallet::envelope::Sealed { envelope: sealed.envelope.clone(), id: sealed.id, created: sealed.created }
}

#[test]
fn filing_keeps_the_copy_and_hands_out_the_other() {
    let (mut store, me) = wallet(1);
    let bob = Identity::from_seed(&seed(2)).unwrap();
    let kept_copy = seal(&me, &me.public(), "hello", DEFAULT_TTL).unwrap();
    let outgoing = seal(&me, &bob.public(), "hello", DEFAULT_TTL).unwrap();
    assert!(!did_wallet::wallet::knows(&store, kept_copy.id));
    let written =
        did_wallet::wallet::file_sent(&mut store, Shelf::Presentations, copy_of(&kept_copy), copy_of(&outgoing))
            .unwrap();
    assert_eq!(written.kept.id, kept_copy.id);
    assert_eq!(written.outgoing.envelope, outgoing.envelope);
    assert_eq!(kept(&store, Shelf::Presentations, kept_copy.id), Ok(kept_copy.envelope.clone()));
    assert_eq!(listing(&store, Shelf::Presentations), vec![kept_copy.id]);
    assert_eq!(listing(&store, Shelf::Messages), Vec::<u64>::new());
    assert!(did_wallet::wallet::knows(&store, kept_copy.id));
    assert!(!did_wallet::wallet::knows(&store, outgoing.id));
}

#[test]
fn filing_refuses_envelopes_that_do_not_differ() {
    let (mut store, me) = wallet(1);
    let one = seal(&me, &me.public(), "hello", DEFAULT_TTL).unwrap();
    let other = seal(&me, &me.public(), "hello", DEFAULT_TTL).unwrap();
    assert_eq!(
        did_wallet::wallet::file_sent(&mut store, Shelf::Messages, copy_of(&one), copy_of(&one)).err(),
        Some(WalletError::SealRefused)
    );
    let same_id = did_wallet::envelope::Sealed { envelope: other.envelope.clone(), id: one.id, created: one.created };
    assert_eq!(
        did_wallet::wallet::file_sent(&mut store, Shelf::Messages, copy_of(&one), same_id).err(),
        Some(WalletError::SealRefused)
    );
    let same_text =
        did_wallet::envelope::Sealed { envelope: one.envelope.clone(), id: one.id ^ 1, created: one.created };
    assert_eq!(
        did_wallet::wallet::file_sent(&mut store, Shelf::Messages, copy_of(&one), same_text).err(),
        Some(WalletError::SealRefused)
    );
    let junk = did_wallet::envelope::Sealed { envelope: "junk".to_string(), id: 1, created: 0 };
    let more_junk = did_wallet::envelope::Sealed { envelope: "more junk".to_string(), id: 2, created: 0 };
    assert_eq!(
        did_wallet::wallet::file_sent(&mut store, Shelf::Messages, junk, more_junk).err(),
        Some(WalletError::SealRefused)
    );
    assert_eq!(listing(&store, Shelf::Messages), Vec::<u64>::new());
}

#[test]
fn filing_wants_ids_that_are_new_to_the_wallet() {
    let (mut store, me) = wallet(1);
    let bob = Identity::from_seed(&seed(2)).unwrap();
    let kept_copy = seal(&me, &me.public(), "hello", DEFAULT_TTL).unwrap();
    let outgoing = seal(&me, &bob.public(), "hello", DEFAULT_TTL).unwrap();
    keep(&mut store, Shelf::Credentials, outgoing.id, "a credential").unwrap();
    assert_eq!(
        did_wallet::wallet::file_sent(&mut store, Shelf::Presentations, copy_of(&kept_copy), copy_of(&outgoing))
            .err(),
        Some(WalletError::IdTaken(outgoing.id))
    );
    assert_eq!(listing(&store, Shelf::Presentations), Vec::<u64>::new());
    keep(&mut store, Shelf::Messages, kept_copy.id, "a message").unwrap();
    assert_eq!(
        did_wallet::wallet::file_sent(&mut store, Shelf::Presentations, copy_of(&kept_copy), copy_of(&outgoing))
            .err(),
        Some(WalletError::IdTaken(kept_copy.id))
    );
    assert_eq!(listing(&store, Shelf::Presentations), Vec::<u64>::new());
    assert_eq!(kept(&store, Shelf::Messages, kept_copy.id), Ok("a message".to_string()));
    // the same copy on the shelf is no excuse either: what is sent is new
    let mut again = WalletStore::new();
    install_identity(&mut again, &seed(1)).unwrap();
    keep(&mut again, Shelf::Presentations, kept_copy.id, &kept_copy.envelope).unwrap();
    assert_eq!(
        did_wallet::wallet::file_sent(&mut again, Shelf::Presentations, copy_of(&kept_copy), copy_of(&outgoing))
            .err(),
        Some(WalletError::IdTaken(kept_copy.id))
    );
}

#[test]
fn an_error_of_resolving_is_said_of_its_party() {
    assert_eq!(WalletError::UnknownConnection(Role::Peer).of(Role::Issuer), WalletError::UnknownConnection(Role::Issuer));
    assert_eq!(WalletError::UnresolvableDid(Role::Peer).of(Role::Subject), WalletError::UnresolvableDid(Role::Subject));
    assert_eq!(WalletError::UnknownConnection(Role::Issuer).of(Role::Peer), WalletError::UnknownConnection(Role::Peer));
    assert_eq!(WalletError::UnknownRecord(4).of(Role::Issuer), WalletError::UnknownRecord(4));
    assert_eq!(WalletError::IdTaken(9).of(Role::Subject), WalletError::IdTaken(9));
    assert_eq!(WalletError::Decryption.of(Role::Subject), WalletError::Decryption);
    assert_eq!(WalletError::NotAnId.of(Role::Issuer), WalletError::NotAnId);
}
