use did_wallet::search::{search_insensitive, search_sensitive};

const SONG: &str = "\
Gitchy, gitchy
Ooh la la
Da doo ron ron
You won't get far
I'm machine
I'm obsolete
In the land of the free
Lobotomy
I wanna suck, I wanna lick
I want to cry and I want to spit
Tears of pleasure
Tears of pain
They trickle down your face the same";

#[test]
fn case_sensitive() {
    let query = "Da doo";

    let file = "\
Gitchy, gitchy
Ooh la la
Da doo ron ron
You won't get far
I'm machine
I'm obsolete
In the land of the free
Lobotomy
I wanna suck, I wanna lick
I want to cry and I want to spit
Tears of pleasure
Tears of pain
They trickle down your face the same";

    assert_eq!(vec!["Da doo ron ron"], search_sensitive(query, file));
}

#[test]
fn case_insensitive() {
    let query = "da doo";

    let file = "\
Gitchy, gitchy
Ooh la la
Da doo ron ron
You won't get far
I'm machine
I'm obsolete
In the land of the free
Lobotomy
I wanna suck, I wanna lick
I want to cry and I want to spit
Tears of pleasure
Tears of pain
They trickle down your face the same";

    assert_eq!(vec!["Da doo ron ron"], search_insensitive(query, file));
}

#[test]
fn sensitive_search_respects_case() {
    let none: Vec<&str> = Vec::new();
    assert_eq!(none, search_sensitive("da doo", SONG));
}

#[test]
fn search_returns_every_matching_line_in_order() {
    assert_eq!(
        vec!["Tears of pleasure", "Tears of pain"],
        search_sensitive("Tears", SONG)
    );
    assert_eq!(
        vec!["I'm machine", "I'm obsolete", "I wanna suck, I wanna lick", "I want to cry and I want to spit"],
        search_insensitive("i", SONG).into_iter().filter(|l| l.starts_with('I')).filter(|l| !l.starts_with("In")).collect::<Vec<&str>>()
    );
}

#[test]
fn search_splits_lines_as_std_does() {
    let text = "one\r\ntwo\n\nthree\r";
    let all: Vec<&str> = text.lines().collect();
    assert_eq!(all, search_sensitive("", text));
    assert_eq!(vec!["one", "two", "", "three\r"], search_sensitive("", text));
    let ended = "a\nb\n";
    assert_eq!(vec!["a", "b"], search_sensitive("", ended));
    let none: Vec<&str> = Vec::new();
    assert_eq!(none, search_sensitive("", ""));
    assert_eq!(none, search_sensitive("x", ""));
}

#[test]
fn search_handles_text_beyond_ascii() {
    let text = "Größe\nÄRGER\nærø";
    assert_eq!(vec!["Größe"], search_sensitive("öß", text));
    assert_eq!(vec!["ÄRGER"], search_insensitive("ärger", text));
    assert_eq!(vec!["ærø"], search_insensitive("ÆRØ", text));
}

#[test]
fn search_config_takes_file_and_query() {
    let args: Vec<String> = ["minigrep", "poem.txt", "Da doo"].iter().map(|w| w.to_string()).collect();
    let config = did_wallet::search::Config::new(&args, false).unwrap();
    assert_eq!(config.filename(), "poem.txt");
    assert_eq!(config.query(), "Da doo");
    assert!(config.case_sensitive());
    let blind = did_wallet::search::Config::new(&args, true).unwrap();
    assert!(!blind.case_sensitive());
    assert_eq!(did_wallet::search::run(&config, SONG), vec!["Da doo ron ron"]);
    let lower: Vec<String> = ["minigrep", "poem.txt", "da doo"].iter().map(|w| w.to_string()).collect();
    let strict = did_wallet::search::Config::new(&lower, false).unwrap();
    assert_eq!(did_wallet::search::run(&strict, SONG), Vec::<&str>::new());
    let loose = did_wallet::search::Config::new(&lower, true).unwrap();
    assert_eq!(did_wallet::search::run(&loose, SONG), vec!["Da doo ron ron"]);
}

#[test]
fn search_config_wants_three_words() {
    let usage = "Wrong number of args. Usage: cargo run <filename> <query>";
    for count in [0usize, 1, 2, 4, 5] {
        let args: Vec<String> = (0..count).map(|i| i.to_string()).collect();
        assert_eq!(did_wallet::search::Config::new(&args, false).err(), Some(usage));
        assert_eq!(did_wallet::search::Config::new(&args, true).err(), Some(usage));
    }
    assert_eq!(did_wallet::search::USAGE, usage);
}
