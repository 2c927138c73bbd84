use did_wallet::envelope::{
    confirm_sealed, created_time, expires_time, header, message_id, open, seal, seal_at, DEFAULT_TTL, NONCE_LEN,
};
use did_wallet::errors::WalletError;
use did_wallet::identity::Identity;

fn identity(fill: u8) -> Identity {
    Identity::from_seed(&vec![fill; 32]).unwrap()
}

fn with_field(envelope: &str, field: &str, value: serde_json::Value) -> String {
    let mut parsed: serde_json::Value = serde_json::from_str(envelope).unwrap();
    parsed.as_object_mut().unwrap().insert(field.to_string(), value);
    serde_json::to_string(&parsed).unwrap()
}

fn ciphertext_of(envelope: &str) -> Vec<u64> {
    let parsed: serde_json::Value = serde_json::from_str(envelope).unwrap();
    parsed["ciphertext"].as_array().unwrap().iter().map(|b| b.as_u64().unwrap()).collect()
}

fn with_ciphertext(envelope: &str, bytes: &[u64]) -> String {
    let numbers: Vec<serde_json::Value> = bytes.iter().map(|b| serde_json::Value::from(*b)).collect();
    with_field(envelope, "ciphertext", serde_json::Value::Array(numbers))
}

#[test]
fn sealed_message_opens_for_its_recipient() {
    let alice = identity(1);
    let bob = identity(2);
    let sealed = seal(&alice, &bob.public(), "Hello Bob", DEFAULT_TTL).unwrap();
    let opened = open(&sealed.envelope, &bob).unwrap();
    assert_eq!(opened.plaintext, "Hello Bob");
    assert_eq!(opened.id, sealed.id);
    assert_eq!(opened.sender.did(), alice.did());
    assert_eq!(opened.sender.public_key(), alice.public_key());
}

#[test]
fn message_sealed_to_self_opens_for_self() {
    let alice = identity(1);
    let sealed = seal(&alice, &alice.public(), "note to self", DEFAULT_TTL).unwrap();
    let opened = open(&sealed.envelope, &alice).unwrap();
    assert_eq!(opened.plaintext, "note to self");
    assert_eq!(opened.id, sealed.id);
    assert_eq!(opened.sender.did(), alice.did());
}

#[test]
fn round_trip_keeps_any_text() {
    let alice = identity(1);
    let bob = identity(2);
    for text in ["", " ", "a", "line\nbreak\r\n", "Grüße, 世界 🌍", "{\"json\":[1,2,3]}", "\u{0}\u{7f}"] {
        let sealed = seal(&alice, &bob.public(), text, 1).unwrap();
        assert_eq!(open(&sealed.envelope, &bob).unwrap().plaintext, text);
    }
    let long = "x".repeat(20000);
    let sealed = seal(&bob, &alice.public(), &long, 0).unwrap();
    assert_eq!(open(&sealed.envelope, &alice).unwrap().plaintext, long);
}

#[test]
fn envelope_does_not_open_for_anyone_else() {
    let alice = identity(1);
    let bob = identity(2);
    let carol = identity(3);
    let sealed = seal(&alice, &bob.public(), "for Bob only", DEFAULT_TTL).unwrap();
    assert_eq!(open(&sealed.envelope, &carol).err(), Some(WalletError::Decryption));
    // the sender is no recipient either, unless it sealed to itself
    assert_eq!(open(&sealed.envelope, &alice).err(), Some(WalletError::Decryption));
}

#[test]
fn flipping_a_byte_of_the_ciphertext_is_detected() {
    let alice = identity(1);
    let bob = identity(2);
    let sealed = seal(&alice, &bob.public(), "tamper with me", DEFAULT_TTL).unwrap();
    let bytes = ciphertext_of(&sealed.envelope);
    assert!(bytes.len() > 16);
    for at in [0, 1, bytes.len() / 2, bytes.len() - 17, bytes.len() - 16, bytes.len() - 1] {
        for mask in [1u64, 0x80, 0xff] {
            let mut changed = bytes.clone();
            changed[at] ^= mask;
            let envelope = with_ciphertext(&sealed.envelope, &changed);
            assert_eq!(open(&envelope, &bob).err(), Some(WalletError::Decryption), "byte {}", at);
        }
    }
    // untouched, it still opens
    let same = with_ciphertext(&sealed.envelope, &bytes);
    assert_eq!(open(&same, &bob).unwrap().plaintext, "tamper with me");
}

#[test]
fn truncated_or_extended_ciphertext_is_detected() {
    let alice = identity(1);
    let bob = identity(2);
    let sealed = seal(&alice, &bob.public(), "length matters", DEFAULT_TTL).unwrap();
    let bytes = ciphertext_of(&sealed.envelope);
    let shorter = with_ciphertext(&sealed.envelope, &bytes[..bytes.len() - 1]);
    assert_eq!(open(&shorter, &bob).err(), Some(WalletError::Decryption));
    let mut more = bytes.clone();
    more.push(0);
    assert_eq!(open(&with_ciphertext(&sealed.envelope, &more), &bob).err(), Some(WalletError::Decryption));
    assert_eq!(open(&with_ciphertext(&sealed.envelope, &[]), &bob).err(), Some(WalletError::Decryption));
}

#[test]
fn two_seals_of_one_message_differ() {
    let alice = identity(1);
    let bob = identity(2);
    let to_self = seal(&alice, &alice.public(), "same text", DEFAULT_TTL).unwrap();
    let to_bob = seal(&alice, &bob.public(), "same text", DEFAULT_TTL).unwrap();
    assert_ne!(to_self.envelope, to_bob.envelope);
    assert_ne!(to_self.id, to_bob.id);
    assert_ne!(ciphertext_of(&to_self.envelope), ciphertext_of(&to_bob.envelope));
    let again = seal(&alice, &bob.public(), "same text", DEFAULT_TTL).unwrap();
    assert_ne!(again.envelope, to_bob.envelope);
}

#[test]
fn header_names_sender_and_recipient_in_the_open() {
    let alice = identity(1);
    let bob = identity(2);
    let sealed = seal(&alice, &bob.public(), "secret", 77).unwrap();
    let h = header(&sealed.envelope).unwrap();
    assert_eq!(h.from, Some(alice.did().to_string()));
    assert_eq!(h.to, vec![bob.did().to_string()]);
    assert_eq!(h.nonce_len, NONCE_LEN);
    assert_eq!(h.nonce_len, 24);
    let carried: Vec<u64> = h.ciphertext.iter().map(|b| u64::from(*b)).collect();
    assert_eq!(carried, ciphertext_of(&sealed.envelope));
    assert_eq!(did_wallet::envelope::ciphertext(&sealed.envelope), Some(h.ciphertext.clone()));
    assert_eq!(did_wallet::envelope::ciphertext("junk"), None);
    assert_eq!(message_id(&sealed.envelope), Some(sealed.id));
    assert!(!sealed.envelope.contains("secret"));
    let parsed: serde_json::Value = serde_json::from_str(&sealed.envelope).unwrap();
    let created = parsed["created_time"].as_u64().unwrap();
    assert!(created > 1_600_000_000);
    assert_eq!(created, sealed.created);
    assert_eq!(parsed["expires_time"].as_u64(), Some(created + 77));
    assert_eq!(created_time(&sealed.envelope), Some(created));
    assert_eq!(expires_time(&sealed.envelope), Some(created + 77));
    assert_eq!(parsed["from"].as_str(), Some(alice.did()));
    assert_eq!(DEFAULT_TTL, 3600);
}

#[test]
fn expiry_is_not_enforced_on_receipt() {
    let alice = identity(1);
    let bob = identity(2);
    let sealed = seal(&alice, &bob.public(), "already late", 0).unwrap();
    assert_eq!(open(&sealed.envelope, &bob).unwrap().plaintext, "already late");
}

#[test]
fn what_is_no_envelope_is_malformed() {
    let bob = identity(2);
    for text in ["", "hello", "{}", "[]", "{\"from\":\"did:key:z6Mk\"}", "null"] {
        assert_eq!(open(text, &bob).err(), Some(WalletError::MalformedEnvelope), "{}", text);
        assert!(header(text).is_none());
    }
    assert_eq!(message_id("{\"id\":12}"), Some(12));
    assert_eq!(message_id("{\"id\":\"12\"}"), None);
    assert_eq!(message_id("{\"id\":-1}"), None);
    assert_eq!(message_id("{}"), None);
    assert_eq!(message_id("nothing"), None);
}

#[test]
fn envelope_without_a_resolvable_sender_is_malformed() {
    let alice = identity(1);
    let bob = identity(2);
    let sealed = seal(&alice, &bob.public(), "who am I", DEFAULT_TTL).unwrap();
    let anonymous = with_field(&sealed.envelope, "from", serde_json::Value::Null);
    assert_eq!(open(&anonymous, &bob).err(), Some(WalletError::MalformedEnvelope));
    let stranger = with_field(&sealed.envelope, "from", serde_json::Value::from("did:web:example.com"));
    assert_eq!(open(&stranger, &bob).err(), Some(WalletError::MalformedEnvelope));
    let junk = with_field(&sealed.envelope, "from", serde_json::Value::from("did:key:z1"));
    assert_eq!(open(&junk, &bob).err(), Some(WalletError::MalformedEnvelope));
}

#[test]
fn envelope_from_another_sender_does_not_open() {
    let alice = identity(1);
    let bob = identity(2);
    let carol = identity(3);
    let sealed = seal(&alice, &bob.public(), "from Alice", DEFAULT_TTL).unwrap();
    let forged = with_field(&sealed.envelope, "from", serde_json::Value::from(carol.did()));
    assert_eq!(open(&forged, &bob).err(), Some(WalletError::Decryption));
}

#[test]
fn nonce_of_wrong_length_is_refused_without_panic() {
    let alice = identity(1);
    let bob = identity(2);
    let sealed = seal(&alice, &bob.public(), "nonce", DEFAULT_TTL).unwrap();
    let long: Vec<serde_json::Value> = (0..25).map(|_| serde_json::Value::from(7)).collect();
    let envelope = with_field(&sealed.envelope, "iv", serde_json::Value::Array(long));
    assert_eq!(header(&envelope).unwrap().nonce_len, 25);
    assert_eq!(open(&envelope, &bob).err(), Some(WalletError::MalformedEnvelope));
    let short: Vec<serde_json::Value> = (0..23).map(|_| serde_json::Value::from(7)).collect();
    let envelope = with_field(&sealed.envelope, "iv", serde_json::Value::Array(short));
    assert_eq!(open(&envelope, &bob).err(), Some(WalletError::Decryption));
    let other: Vec<serde_json::Value> = (0..24).map(|_| serde_json::Value::from(7)).collect();
    let envelope = with_field(&sealed.envelope, "iv", serde_json::Value::Array(other));
    assert_eq!(open(&envelope, &bob).err(), Some(WalletError::Decryption));
}

#[test]
fn unknown_algorithm_is_malformed() {
    let alice = identity(1);
    let bob = identity(2);
    let sealed = seal(&alice, &bob.public(), "alg", DEFAULT_TTL).unwrap();
    let envelope = with_field(&sealed.envelope, "alg", serde_json::Value::from("none"));
    assert_eq!(open(&envelope, &bob).err(), Some(WalletError::MalformedEnvelope));
}

#[test]
fn message_that_would_not_open_to_itself_is_not_sealed() {
    let alice = identity(1);
    let bob = identity(2);
    // the envelope library unwraps a forwarding wrapper on receipt
    let wrapper = "{\"next\":\"did:key:abc\",\"payloads~attach\":[104,105]}";
    assert_eq!(seal(&alice, &bob.public(), wrapper, DEFAULT_TTL).err(), Some(WalletError::SealRefused));
    assert_eq!(seal_at(&alice, &alice.public(), wrapper, 5, 5).err(), Some(WalletError::SealRefused));
    // what merely looks alike is sealed
    for text in ["{\"next\":\"did:key:abc\"}", "{\"payloads~attach\":[104,105]}", "hi"] {
        let sealed = seal(&alice, &bob.public(), text, DEFAULT_TTL).unwrap();
        assert_eq!(open(&sealed.envelope, &bob).unwrap().plaintext, text);
    }
}

#[test]
fn expiry_is_creation_plus_ttl() {
    let alice = identity(1);
    let bob = identity(2);
    let sealed = seal_at(&alice, &bob.public(), "timed", 1_000, 3600).unwrap();
    assert_eq!(sealed.created, 1_000);
    assert_eq!(created_time(&sealed.envelope), Some(1_000));
    assert_eq!(expires_time(&sealed.envelope), Some(4_600));
    assert_eq!(open(&sealed.envelope, &bob).unwrap().plaintext, "timed");
    let at_zero = seal_at(&alice, &bob.public(), "timed", 0, 0).unwrap();
    assert_eq!(created_time(&at_zero.envelope), Some(0));
    assert_eq!(expires_time(&at_zero.envelope), Some(0));
}

#[test]
fn expiry_stops_at_the_largest_time() {
    let alice = identity(1);
    let bob = identity(2);
    let sealed = seal_at(&alice, &bob.public(), "late", u64::MAX - 5, 10).unwrap();
    assert_eq!(created_time(&sealed.envelope), Some(u64::MAX - 5));
    assert_eq!(expires_time(&sealed.envelope), Some(u64::MAX));
    let sealed = seal_at(&alice, &bob.public(), "late", 7, u64::MAX).unwrap();
    assert_eq!(expires_time(&sealed.envelope), Some(u64::MAX));
    let sealed = seal_at(&alice, &bob.public(), "late", u64::MAX - 5, 5).unwrap();
    assert_eq!(expires_time(&sealed.envelope), Some(u64::MAX));
    let sealed = seal_at(&alice, &bob.public(), "late", u64::MAX - 5, 4).unwrap();
    assert_eq!(expires_time(&sealed.envelope), Some(u64::MAX - 1));
}

#[test]
fn times_of_what_is_no_envelope_are_unknown() {
    assert_eq!(created_time("junk"), None);
    assert_eq!(expires_time("{}"), None);
    assert_eq!(created_time("{\"created_time\":5}"), Some(5));
    assert_eq!(expires_time("{\"created_time\":5}"), None);
    assert_eq!(expires_time("{\"expires_time\":1.5}"), None);
}

#[test]
fn envelope_is_confirmed_by_reading_it_back() {
    let alice = identity(1);
    let bob = identity(2);
    let key = alice.agree(&bob.public());
    let sealed = seal_at(&alice, &bob.public(), "read me back", 100, 50).unwrap();
    let handed = || Some((sealed.envelope.clone(), sealed.id));
    let confirmed = confirm_sealed(handed(), alice.did(), bob.did(), "read me back", &key, 100, 150).unwrap();
    assert_eq!(confirmed.envelope, sealed.envelope);
    assert_eq!(confirmed.id, sealed.id);
    assert_eq!(confirmed.created, 100);
    let refused = Some(WalletError::SealRefused);
    assert_eq!(confirm_sealed(None, alice.did(), bob.did(), "read me back", &key, 100, 150).err(), refused);
    assert_eq!(confirm_sealed(handed(), bob.did(), bob.did(), "read me back", &key, 100, 150).err(), refused);
    assert_eq!(confirm_sealed(handed(), alice.did(), alice.did(), "read me back", &key, 100, 150).err(), refused);
    assert_eq!(confirm_sealed(handed(), alice.did(), bob.did(), "read me", &key, 100, 150).err(), refused);
    assert_eq!(confirm_sealed(handed(), alice.did(), bob.did(), "read me back", &key, 101, 150).err(), refused);
    assert_eq!(confirm_sealed(handed(), alice.did(), bob.did(), "read me back", &key, 100, 151).err(), refused);
    let other_id = Some((sealed.envelope.clone(), sealed.id.wrapping_add(1)));
    assert_eq!(confirm_sealed(other_id, alice.did(), bob.did(), "read me back", &key, 100, 150).err(), refused);
    let other_key = alice.agree(&alice.public());
    assert_eq!(confirm_sealed(handed(), alice.did(), bob.did(), "read me back", &other_key, 100, 150).err(), refused);
    let short_key = vec![1u8; 16];
    assert_eq!(confirm_sealed(handed(), alice.did(), bob.did(), "read me back", &short_key, 100, 150).err(), refused);
    let junk = Some(("junk".to_string(), 1));
    assert_eq!(confirm_sealed(junk, alice.did(), bob.did(), "read me back", &key, 100, 150).err(), refused);
}

#[test]
fn body_that_is_no_text_is_malformed() {
    let alice = identity(1);
    let bob = identity(2);
    let key = alice.agree(&bob.public());
    let message = didcomm_rs::Message::new()
        .from(alice.did())
        .to(&[bob.did()])
        .body(&[0xff, 0xfe, 0x00])
        .as_jwe(&didcomm_rs::crypto::CryptoAlgorithm::XC20P);
    let envelope = message.seal(&key).unwrap();
    assert_eq!(open(&envelope, &bob).err(), Some(WalletError::MalformedEnvelope));
    // the same envelope around text opens
    let message = didcomm_rs::Message::new()
        .from(alice.did())
        .to(&[bob.did()])
        .body("gr\u{fc}\u{df}e".as_bytes())
        .as_jwe(&didcomm_rs::crypto::CryptoAlgorithm::XC20P);
    let id = message.get_didcomm_header().id as u64;
    let envelope = message.seal(&key).unwrap();
    let opened = open(&envelope, &bob).unwrap();
    assert_eq!(opened.plaintext, "gr\u{fc}\u{df}e");
    assert_eq!(opened.id, id);
}

#[test]
fn envelope_of_the_plain_library_opens() {
    // sealed as a peer without this wallet would seal it
    let alice = identity(1);
    let bob = identity(2);
    let key = alice.agree(&bob.public());
    let envelope = didcomm_rs::Message::new()
        .from(alice.did())
        .to(&[bob.did()])
        .timed(Some(3600))
        .body("from elsewhere".as_bytes())
        .as_jwe(&didcomm_rs::crypto::CryptoAlgorithm::XC20P)
        .seal(&key)
        .unwrap();
    assert_eq!(open(&envelope, &bob).unwrap().plaintext, "from elsewhere");
    assert_eq!(expires_time(&envelope), Some(3600));
}
