use did_wallet::envelope::{created_time, header, message_id, open, seal_at};
use did_wallet::errors::WalletError;
use did_wallet::identity::{resolve_did_key, Identity, PublicIdentity};
use did_wallet::keystore::read_key_file;

/// A small generator of numbers that gives the same run every time.
struct Numbers(u64);

impl Numbers {
    fn next(&mut self) -> u64 {
        self.0 = self.0.wrapping_mul(6364136223846793005).wrapping_add(1442695040888963407);
        self.0 >> 33
    }

    fn below(&mut self, bound: usize) -> usize {
        (self.next() % bound as u64) as usize
    }
}

/// `text` with a few of its bytes changed, dropped or doubled, as far as the
/// result is still text.
fn garbled(text: &str, numbers: &mut Numbers) -> String {
    let mut bytes = text.as_bytes().to_vec();
    for _ in 0..1 + numbers.below(3) {
        if bytes.is_empty() {
            break;
        }
        let at = numbers.below(bytes.len());
        match numbers.below(4) {
            0 => bytes[at] = b' ' + (numbers.below(95) as u8),
            1 => {
                bytes.remove(at);
            }
            2 => bytes.insert(at, bytes[at]),
            _ => bytes.truncate(at),
        }
    }
    String::from_utf8_lossy(&bytes).into_owned()
}

#[test]
fn garbled_dids_resolve_or_are_refused() {
    let alice = Identity::from_seed(&vec![1u8; 32]).unwrap();
    let mut numbers = Numbers(1);
    let mut resolved = 0;
    for _ in 0..3000 {
        let did = garbled(alice.did(), &mut numbers);
        if let Some(key) = resolve_did_key(&did) {
            resolved += 1;
            assert_eq!(key.len(), 32);
            let peer = PublicIdentity::resolve(&did).unwrap();
            assert_eq!(peer.public_key(), &key);
            assert_eq!(resolve_did_key(peer.did()), Some(key));
        } else {
            assert!(PublicIdentity::resolve(&did).is_none());
        }
    }
    assert!(resolved < 3000);
    for did in ["did:key:z", "did:key:zz", "did:key:z2", "did:key:z6", "did:key:z6M", " did:key:z6Mk ", "\tdid:key:z\n"] {
        assert!(resolve_did_key(did).is_none(), "{:?}", did);
    }
}

#[test]
fn garbled_envelopes_open_or_are_refused() {
    let alice = Identity::from_seed(&vec![1u8; 32]).unwrap();
    let bob = Identity::from_seed(&vec![2u8; 32]).unwrap();
    let sealed = seal_at(&alice, &bob.public(), "steady", 1000, 60).unwrap();
    let mut numbers = Numbers(2);
    let mut opened = 0;
    for _ in 0..1500 {
        let envelope = garbled(&sealed.envelope, &mut numbers);
        let _ = header(&envelope);
        let _ = message_id(&envelope);
        let _ = created_time(&envelope);
        match open(&envelope, &bob) {
            Ok(o) => {
                opened += 1;
                // only what the cipher does not cover can have changed
                assert_eq!(o.plaintext, "steady");
                assert_eq!(o.sender.did(), alice.did());
            }
            Err(e) => assert!(
                e == WalletError::MalformedEnvelope || e == WalletError::Decryption,
                "{:?}",
                e
            ),
        }
    }
    assert!(opened < 1500);
}

#[test]
fn garbled_key_files_read_or_are_refused() {
    let text = "{\"kty\":\"OKP\",\"crv\":\"Ed25519\",\"x\":\"iojj3XQJ8ZX9UtstPLpdcspnCb8dlBIb83SIAbQPb1w\",\"d\":\"AQEBAQEBAQEBAQEBAQEBAQEBAQEBAQEBAQEBAQEBAQE\"}";
    let expected = Identity::from_seed(&vec![1u8; 32]).unwrap();
    assert_eq!(read_key_file(text).unwrap().did(), expected.did());
    let mut numbers = Numbers(3);
    for _ in 0..2000 {
        match read_key_file(&garbled(text, &mut numbers)) {
            Ok(identity) => {
                // a key file that reads holds the key pair of its private key
                let again = Identity::from_seed(identity.seed()).unwrap();
                assert_eq!(again.did(), identity.did());
            }
            Err(e) => assert_eq!(e, WalletError::CorruptKey),
        }
    }
}

#[test]
fn every_pair_of_identities_agrees() {
    let identities: Vec<Identity> = (0u8..12).map(|i| Identity::from_seed(&vec![i; 32]).unwrap()).collect();
    for a in &identities {
        for b in &identities {
            assert_eq!(a.agree(&b.public()), b.agree(&a.public()));
        }
    }
}

#[test]
fn every_pair_of_identities_exchanges_messages() {
    let identities: Vec<Identity> = (20u8..26).map(|i| Identity::from_seed(&vec![i; 32]).unwrap()).collect();
    for (i, a) in identities.iter().enumerate() {
        for (j, b) in identities.iter().enumerate() {
            let text = format!("from {} to {}", i, j);
            let sealed = seal_at(a, &b.public(), &text, 5, 5).unwrap();
            assert_eq!(open(&sealed.envelope, b).unwrap().plaintext, text);
            for (k, c) in identities.iter().enumerate() {
                if k != j && k != i {
                    assert_eq!(open(&sealed.envelope, c).err(), Some(WalletError::Decryption));
                }
            }
        }
    }
}
