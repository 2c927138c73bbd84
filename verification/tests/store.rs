use did_wallet::errors::{Role, WalletError};
use did_wallet::paths::{
    credential_path, credentials_path, decimal_text, did_path, dids_path, key_jwk_path, message_path,
    messages_path, name_path, names_path, parse_id, presentation_path, presentations_path, root_path,
};
use did_wallet::registry::{connect, resolve_alias, resolve_did, Connection};
use did_wallet::store::{Entry, NameTable, RecordTable, Shelf, WalletStore};

#[test]
fn name_table_keeps_one_value_per_key() {
    let mut table = NameTable::new();
    assert_eq!(table.len(), 0);
    assert_eq!(table.get("a"), None);
    assert_eq!(table.put("a", "1"), None);
    assert_eq!(table.put("b", "2"), None);
    assert_eq!(table.put("a", "3"), Some("1".to_string()));
    assert_eq!(table.len(), 2);
    assert_eq!(table.get("a"), Some("3".to_string()));
    assert_eq!(table.get("b"), Some("2".to_string()));
    assert_eq!(table.get("c"), None);
    assert_eq!(table.get(""), None);
    assert_eq!(table.keys(), vec!["a".to_string(), "b".to_string()]);
    assert_eq!(table.put("", ""), None);
    assert_eq!(table.get(""), Some(String::new()));
}

#[test]
fn record_table_lists_ids_in_ascending_order() {
    let mut table = RecordTable::new();
    assert_eq!(table.ids(), Vec::<u64>::new());
    assert_eq!(table.put(30, "c"), None);
    assert_eq!(table.put(10, "a"), None);
    assert_eq!(table.put(u64::MAX, "z"), None);
    assert_eq!(table.put(20, "b"), None);
    assert_eq!(table.put(0, "0"), None);
    assert_eq!(table.ids(), vec![0, 10, 20, 30, u64::MAX]);
    assert_eq!(table.get(20), Some("b".to_string()));
    assert_eq!(table.get(21), None);
    assert_eq!(table.put(20, "B"), Some("b".to_string()));
    assert_eq!(table.ids(), vec![0, 10, 20, 30, u64::MAX]);
    assert_eq!(table.get(20), Some("B".to_string()));
    assert_eq!(table.get(u64::MAX), Some("z".to_string()));
    assert_eq!(table.get(0), Some("0".to_string()));
}

#[test]
fn connect_resolves_in_both_directions() {
    let mut store = WalletStore::new();
    let done = connect(&mut store, "alice", "did:key:z6MkAlice");
    assert!(matches!(done.outcome, Connection::Created));
    assert_eq!(done.name_path, "./.did/names/alice");
    assert_eq!(done.did_path, "./.did/dids/did:key:z6MkAlice");
    assert_eq!(resolve_did(&store, "alice"), Ok("did:key:z6MkAlice".to_string()));
    assert_eq!(resolve_alias(&store, "did:key:z6MkAlice"), "alice");
}

#[test]
fn unknown_alias_is_an_error_and_unknown_did_is_not() {
    let mut store = WalletStore::new();
    assert_eq!(resolve_did(&store, "nobody"), Err(WalletError::UnknownConnection(Role::Peer)));
    assert_eq!(resolve_alias(&store, "did:key:z6MkNobody"), "did:key:z6MkNobody");
    connect(&mut store, "alice", "did:key:z6MkAlice");
    assert_eq!(resolve_did(&store, "Alice"), Err(WalletError::UnknownConnection(Role::Peer)));
    assert_eq!(resolve_did(&store, ""), Err(WalletError::UnknownConnection(Role::Peer)));
    assert_eq!(resolve_alias(&store, ""), "");
}

#[test]
fn last_connection_wins() {
    let mut store = WalletStore::new();
    connect(&mut store, "alice", "did:one");
    let again = connect(&mut store, "alice", "did:two");
    match again.outcome {
        Connection::Replaced(before) => assert_eq!(before, "did:one"),
        Connection::Created => panic!("the alias was taken"),
    }
    assert_eq!(resolve_did(&store, "alice"), Ok("did:two".to_string()));
    assert_eq!(resolve_alias(&store, "did:two"), "alice");
    // the DID that the alias led to is known under no alias any more
    assert_eq!(resolve_alias(&store, "did:one"), "did:one");
    assert_eq!(store.dids().get("did:one"), None);
    assert_eq!(store.names().len(), 1);
    assert_eq!(store.dids().len(), 1);
    // a DID that takes a new alias gives up the old one
    assert_eq!(again.forgotten, None);
    let renamed = connect(&mut store, "al", "did:two");
    assert!(matches!(renamed.outcome, Connection::Created));
    assert_eq!(renamed.forgotten, Some("alice".to_string()));
    let same = connect(&mut store, "al", "did:two");
    assert!(matches!(same.outcome, Connection::Replaced(ref before) if before == "did:two"));
    assert_eq!(same.forgotten, None);
    assert_eq!(resolve_alias(&store, "did:two"), "al");
    assert_eq!(resolve_did(&store, "al"), Ok("did:two".to_string()));
    assert_eq!(resolve_did(&store, "alice"), Err(WalletError::UnknownConnection(Role::Peer)));
    assert_eq!(store.names().len(), 1);
    assert_eq!(store.dids().len(), 1);
}

#[test]
fn the_two_indexes_mirror_each_other() {
    let mut store = WalletStore::new();
    let steps = [
        ("a", "did:1"),
        ("b", "did:2"),
        ("a", "did:2"),
        ("c", "did:1"),
        ("b", "did:1"),
        ("a", "did:2"),
        ("c", "did:3"),
        ("c", "did:3"),
        ("d", "did:3"),
    ];
    for (alias, did) in steps {
        connect(&mut store, alias, did);
        assert_eq!(resolve_did(&store, alias), Ok(did.to_string()));
        assert_eq!(resolve_alias(&store, did), alias);
        let aliases = store.names().keys();
        let dids = store.dids().keys();
        assert_eq!(aliases.len(), dids.len());
        for known in &aliases {
            let leads_to = store.names().get(known).unwrap();
            assert_eq!(store.dids().get(&leads_to), Some(known.clone()));
        }
        for known in &dids {
            let leads_to = store.dids().get(known).unwrap();
            assert_eq!(store.names().get(&leads_to), Some(known.clone()));
        }
    }
    assert_eq!(store.names().keys(), vec!["b".to_string(), "a".to_string(), "d".to_string()]);
    assert_eq!(resolve_did(&store, "b"), Ok("did:1".to_string()));
    assert_eq!(resolve_did(&store, "c"), Err(WalletError::UnknownConnection(Role::Peer)));
}

#[test]
fn name_table_forgets_what_is_removed() {
    let mut table = NameTable::new();
    table.put("a", "1");
    table.put("b", "2");
    table.put("c", "3");
    assert_eq!(table.remove("b"), Some("2".to_string()));
    assert_eq!(table.remove("b"), None);
    assert_eq!(table.remove("x"), None);
    assert_eq!(table.keys(), vec!["a".to_string(), "c".to_string()]);
    assert_eq!(table.get("b"), None);
    assert_eq!(table.get("c"), Some("3".to_string()));
    assert_eq!(table.len(), 2);
    assert_eq!(table.remove("a"), Some("1".to_string()));
    assert_eq!(table.remove("c"), Some("3".to_string()));
    assert_eq!(table.len(), 0);
}

#[test]
fn store_from_parts_makes_its_connections_anew() {
    let line = |key: &str, value: &str| Entry { key: key.to_string(), value: value.to_string() };
    let mut messages = RecordTable::new();
    messages.put(4, "four");
    let store = WalletStore::from_parts(
        Some("key".to_string()),
        vec![line("alice", "did:a"), line("bob", "did:b"), line("al", "did:a")],
        messages,
        RecordTable::new(),
        RecordTable::new(),
    );
    assert_eq!(store.key_file(), Some(&"key".to_string()));
    assert_eq!(resolve_did(&store, "bob"), Ok("did:b".to_string()));
    assert_eq!(resolve_did(&store, "al"), Ok("did:a".to_string()));
    // two aliases for one DID: the later one stands
    assert_eq!(resolve_did(&store, "alice"), Err(WalletError::UnknownConnection(Role::Peer)));
    assert_eq!(resolve_alias(&store, "did:a"), "al");
    assert_eq!(resolve_alias(&store, "did:b"), "bob");
    assert_eq!(store.shelf(Shelf::Messages).ids(), vec![4]);
    assert_eq!(store.shelf(Shelf::Credentials).ids(), Vec::<u64>::new());
}

#[test]
fn connecting_leaves_other_connections_alone() {
    let mut store = WalletStore::new();
    connect(&mut store, "alice", "did:a");
    connect(&mut store, "bob", "did:b");
    connect(&mut store, "carol", "did:c");
    assert_eq!(resolve_did(&store, "alice"), Ok("did:a".to_string()));
    assert_eq!(resolve_did(&store, "bob"), Ok("did:b".to_string()));
    assert_eq!(resolve_alias(&store, "did:a"), "alice");
    assert_eq!(resolve_alias(&store, "did:c"), "carol");
    assert!(store.key_file().is_none());
    assert_eq!(store.shelf(Shelf::Messages).ids(), Vec::<u64>::new());
}

#[test]
fn paths_lie_below_the_root() {
    assert_eq!(root_path(), "./.did/");
    assert_eq!(key_jwk_path(), "./.did/key.jwk");
    assert_eq!(names_path(), "./.did/names/");
    assert_eq!(name_path("bob"), "./.did/names/bob");
    assert_eq!(dids_path(), "./.did/dids/");
    assert_eq!(did_path("did:key:z6Mk"), "./.did/dids/did:key:z6Mk");
    assert_eq!(messages_path(), "./.did/messages/");
    assert_eq!(message_path(42), "./.did/messages/42.dcem");
    assert_eq!(credentials_path(), "./.did/credentials/");
    assert_eq!(credential_path(0), "./.did/credentials/0.dcem");
    assert_eq!(presentations_path(), "./.did/presentations/");
    assert_eq!(presentation_path(u64::MAX), "./.did/presentations/18446744073709551615.dcem");
    assert_eq!(name_path(""), "./.did/names/");
}

#[test]
fn decimal_text_and_parse_id_are_inverse() {
    for n in [0u64, 1, 9, 10, 11, 99, 100, 12345, 1_000_000_007, u64::MAX - 1, u64::MAX] {
        assert_eq!(decimal_text(n), n.to_string());
        assert_eq!(parse_id(&decimal_text(n)), Some(n));
    }
    assert_eq!(decimal_text(7), "7");
    assert_eq!(decimal_text(1230), "1230");
}

#[test]
fn parse_id_accepts_digits_only() {
    assert_eq!(parse_id("0"), Some(0));
    assert_eq!(parse_id("007"), Some(7));
    assert_eq!(parse_id("18446744073709551615"), Some(u64::MAX));
    assert_eq!(parse_id("18446744073709551616"), None);
    assert_eq!(parse_id("99999999999999999999"), None);
    assert_eq!(parse_id("000000000000000000000001"), Some(1));
    assert_eq!(parse_id(""), None);
    assert_eq!(parse_id(" 1"), None);
    assert_eq!(parse_id("1 "), None);
    assert_eq!(parse_id("+1"), None);
    assert_eq!(parse_id("-1"), None);
    assert_eq!(parse_id("1.0"), None);
    assert_eq!(parse_id("12a"), None);
    assert_eq!(parse_id("a12"), None);
    assert_eq!(parse_id("١٢"), None);
}
