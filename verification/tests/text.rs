use did_wallet::search::{search, Case};
use did_wallet::text::{before, chars_of, contains, found_at, in_order, join, same_bytes, same_text};

fn chars(text: &str) -> Vec<char> {
    text.chars().collect()
}

#[test]
fn same_text_compares_characters() {
    assert!(same_text("", ""));
    assert!(same_text("abc", "abc"));
    assert!(!same_text("abc", "abd"));
    assert!(!same_text("abc", "ab"));
    assert!(!same_text("é", "e\u{301}"));
}

#[test]
fn same_bytes_compares_bytes() {
    assert!(same_bytes(&[], &[]));
    assert!(same_bytes(&[1, 2, 3], &[1, 2, 3]));
    assert!(!same_bytes(&[1, 2, 3], &[1, 2, 4]));
    assert!(!same_bytes(&[1, 2, 3], &[1, 2]));
    assert!(!same_bytes(&[], &[0]));
}

#[test]
fn join_puts_one_text_after_the_other() {
    assert_eq!(join("", ""), "");
    assert_eq!(join("ab", "cd"), "abcd");
    assert_eq!(join("", "x"), "x");
    assert_eq!(join("Grü", "ße"), "Grüße");
}

#[test]
fn chars_of_gives_one_element_per_character() {
    assert_eq!(chars_of(""), Vec::<char>::new());
    assert_eq!(chars_of("aß🌍"), vec!['a', 'ß', '🌍']);
}

#[test]
fn contains_finds_a_needle_anywhere() {
    assert!(contains(&chars("hello world"), &chars("hello")));
    assert!(contains(&chars("hello world"), &chars("o w")));
    assert!(contains(&chars("hello world"), &chars("world")));
    assert!(contains(&chars("hello world"), &chars("hello world")));
    assert!(contains(&chars("hello world"), &chars("")));
    assert!(contains(&chars(""), &chars("")));
    assert!(!contains(&chars(""), &chars("a")));
    assert!(!contains(&chars("hello"), &chars("hello world")));
    assert!(!contains(&chars("hello world"), &chars("worlds")));
    assert!(!contains(&chars("aaab"), &chars("aab ")));
    assert!(contains(&chars("aaab"), &chars("aab")));
}

#[test]
fn found_at_looks_at_one_place() {
    let hay = chars("abcabc");
    assert!(found_at(&hay, &chars("abc"), 0));
    assert!(found_at(&hay, &chars("abc"), 3));
    assert!(!found_at(&hay, &chars("abc"), 1));
    assert!(found_at(&hay, &chars(""), 6));
    assert!(found_at(&hay, &chars("c"), 5));
}

#[test]
fn search_takes_the_rule_as_a_value() {
    let text = "Alpha\nbeta\nALPHABET";
    assert_eq!(search(Case::Sensitive, "Alpha", text), vec!["Alpha"]);
    assert_eq!(search(Case::Insensitive, "Alpha", text), vec!["Alpha", "ALPHABET"]);
    assert_eq!(search(Case::Insensitive, "BET", text), vec!["beta", "ALPHABET"]);
}

#[test]
fn before_goes_by_the_dictionary() {
    assert!(before("", "a"));
    assert!(!before("", ""));
    assert!(!before("a", ""));
    assert!(before("a", "b"));
    assert!(!before("b", "a"));
    assert!(!before("a", "a"));
    assert!(before("a", "aa"));
    assert!(before("ab", "b"));
    assert!(before("B", "a"));
    assert!(before("z", "\u{e4}"));
    assert!(before("\u{e4}", "\u{4e16}"));
    for (a, b) in [("alice", "bob"), ("al", "alice"), ("Zed", "alice"), ("x1", "x10"), ("\u{1f30d}", "\u{1f30e}")] {
        assert_eq!(before(a, b), a < b);
        assert_eq!(before(b, a), b < a);
    }
}

#[test]
fn in_order_sorts_distinct_texts() {
    let list: Vec<String> = ["self", "bob", "alice", "Carol", "al", ""].iter().map(|w| w.to_string()).collect();
    let mut expected = list.clone();
    expected.sort();
    assert_eq!(in_order(&list), expected);
    assert_eq!(in_order(&Vec::new()), Vec::<String>::new());
    assert_eq!(in_order(&vec!["one".to_string()]), vec!["one".to_string()]);
}
