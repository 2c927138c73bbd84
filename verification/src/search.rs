//! Line search: the lines of a text that contain a query.

use vstd::prelude::*;
use crate::text::{chars_of, contains, contains_text};

verus! {

/// Offset of the first line feed in `s`, or the length of `s` if it has none.
pub open spec fn line_end(s: Seq<char>) -> nat
    decreases s.len(),
{
    if s.len() == 0 || s[0] == '\n' {
        0
    } else {
        1 + line_end(s.drop_first())
    }
}

/// A line without the carriage return that stood before its line feed.
pub open spec fn without_cr(line: Seq<char>) -> Seq<char> {
    if line.len() > 0 && line.last() == '\r' {
        line.drop_last()
    } else {
        line
    }
}

/// The lines of a text. A line ends at a line feed, which is dropped together
/// with a carriage return right before it; what follows the last line feed is
/// a line of its own unless it is empty.
pub open spec fn lines_of(s: Seq<char>) -> Seq<Seq<char>>
    decreases s.len(),
{
    if s.len() == 0 {
        Seq::empty()
    } else {
        let n = line_end(s) as int;
        if n >= s.len() {
            seq![s]
        } else {
            seq![without_cr(s.take(n))] + lines_of(s.skip(n + 1))
        }
    }
}

/// Lower-case form of a text, as `str::to_lowercase` gives it.
pub uninterp spec fn lowercase(s: Seq<char>) -> Seq<char>;

/// Calls `str::to_lowercase`, whose result depends on the text alone.
#[verifier::external_body]
fn to_lowercase(s: &str) -> (r: String)
    ensures
        r@ == lowercase(s@),
{
    s.to_lowercase()
}

/// How a line is held against the query.
#[derive(Clone, Copy, Debug, PartialEq, Eq, Structural)]
pub enum Case {
    Sensitive,
    Insensitive,
}

/// Whether a line matches the query under the given rule.
pub open spec fn line_matches(case: Case, line: Seq<char>, query: Seq<char>) -> bool {
    match case {
        Case::Sensitive => contains_text(line, query),
        Case::Insensitive => contains_text(lowercase(line), lowercase(query)),
    }
}

/// The lines of `text` that match `query`, in their order.
pub open spec fn matching_lines(case: Case, query: Seq<char>, text: Seq<char>) -> Seq<Seq<char>> {
    lines_of(text).filter(|line: Seq<char>| line_matches(case, line, query))
}

/// The first line ends within the text, at a line feed if before its end,
/// and holds no line feed.
proof fn lemma_line_end_bounds(s: Seq<char>)
    ensures
        0 <= line_end(s) <= s.len(),
        line_end(s) < s.len() ==> s[line_end(s) as int] == '\n',
        forall|i: int| 0 <= i < line_end(s) ==> s[i] != '\n',
    decreases s.len(),
{
    if s.len() == 0 || s[0] == '\n' {
    } else {
        lemma_line_end_bounds(s.drop_first());
        assert forall|i: int| 0 <= i < line_end(s) implies s[i] != '\n' by {
            if i > 0 {
                assert(s[i] == s.drop_first()[i - 1]);
            }
        }
    }
}

/// A stretch without a line feed that ends at a line feed, or at the end of
/// the text, is where the line ends.
proof fn lemma_line_end_is(s: Seq<char>, n: int)
    requires
        0 <= n <= s.len(),
        forall|i: int| 0 <= i < n ==> s[i] != '\n',
        n < s.len() ==> s[n] == '\n',
    ensures
        line_end(s) == n,
{
    lemma_line_end_bounds(s);
    let m = line_end(s) as int;
    if m < n {
        assert(s[m] == '\n');
    } else if m > n {
        assert(s[n] != '\n');
    }
}

/// The lines of `file` that match `query` under the given rule, in their
/// order and as they stand in `file`.
pub fn search<'a>(case: Case, query: &str, file: &'a str) -> (results: Vec<&'a str>)
    ensures
        results@.len() == matching_lines(case, query@, file@).len(),
        forall|i: int| 0 <= i < results@.len() ==> (#[trigger] results@[i])@ == matching_lines(case, query@, file@)[i],
{
    let text = chars_of(file);
    let needle = match case {
        Case::Sensitive => chars_of(query),
        Case::Insensitive => chars_of(to_lowercase(query).as_str()),
    };
    let ghost pred = |line: Seq<char>| line_matches(case, line, query@);
    let ghost mut seen: Seq<Seq<char>> = Seq::empty();
    let mut results: Vec<&'a str> = Vec::new();
    let mut start: usize = 0;
    assert(text@.skip(0) =~= text@);
    while start < text.len()
        invariant
            text@ == file@,
            start <= text@.len(),
            pred == (|line: Seq<char>| line_matches(case, line, query@)),
            case == Case::Sensitive ==> needle@ == query@,
            case == Case::Insensitive ==> needle@ == lowercase(query@),
            lines_of(text@) == seen + lines_of(text@.skip(start as int)),
            results@.len() == seen.filter(pred).len(),
            forall|i: int| 0 <= i < results@.len() ==> (#[trigger] results@[i])@ == seen.filter(pred)[i],
        decreases text@.len() - start,
    {
        let ghost rest = text@.skip(start as int);
        let mut end: usize = start;
        while end < text.len() && text[end] != '\n'
            invariant
                start <= end <= text@.len(),
                forall|i: int| start <= i < end ==> text@[i] != '\n',
            decreases text@.len() - end,
        {
            end += 1;
        }
        proof {
            assert forall|i: int| 0 <= i < end - start implies rest[i] != '\n' by {
                assert(rest[i] == text@[start + i]);
            }
            lemma_line_end_is(rest, end - start);
        }
        let terminated = end < text.len();
        let stop: usize = if terminated && end > start && text[end - 1] == '\r' {
            end - 1
        } else {
            end
        };
        let line: &'a str = file.substring_char(start, stop);
        let ghost shown: Seq<char> = if terminated {
            without_cr(rest.take(end - start))
        } else {
            rest
        };
        proof {
            assert(rest.take(end - start) =~= text@.subrange(start as int, end as int));
            if terminated {
                if end > start && text@[end - 1] == '\r' {
                    assert(rest.take(end - start).last() == '\r');
                    assert(rest.take(end - start).drop_last() =~= text@.subrange(start as int, stop as int));
                } else {
                    assert(shown =~= text@.subrange(start as int, stop as int));
                }
            } else {
                assert(rest =~= text@.subrange(start as int, stop as int));
            }
            assert(line@ == shown);
        }
        let hit = match case {
            Case::Sensitive => contains(&chars_of(line), &needle),
            Case::Insensitive => contains(&chars_of(to_lowercase(line).as_str()), &needle),
        };
        assert(hit == pred(shown));
        let next: usize = if terminated { end + 1 } else { end };
        proof {
            let tail = text@.skip(next as int);
            if terminated {
                assert(rest.skip(end - start + 1) =~= tail);
                assert(lines_of(rest) == seq![shown] + lines_of(tail));
            } else {
                assert(tail.len() == 0);
                assert(lines_of(rest) =~= seq![shown] + lines_of(tail));
            }
            assert(lines_of(text@) =~= seen.push(shown) + lines_of(tail));
            assert(seen.push(shown).drop_last() =~= seen);
            reveal(Seq::filter);
            assert(seen.push(shown).filter(pred) == if pred(shown) { seen.filter(pred).push(shown) } else { seen.filter(pred) });
            seen = seen.push(shown);
        }
        if hit {
            results.push(line);
        }
        start = next;
    }
    proof {
        assert(text@.skip(start as int).len() == 0);
        assert(lines_of(text@) =~= seen);
    }
    results
}

/// The lines of `file` that contain `query`, in their order.
pub fn search_sensitive<'a>(query: &str, file: &'a str) -> (results: Vec<&'a str>)
    ensures
        results@.len() == matching_lines(Case::Sensitive, query@, file@).len(),
        forall|i: int| 0 <= i < results@.len() ==> (#[trigger] results@[i])@ == matching_lines(Case::Sensitive, query@, file@)[i],
{
    search(Case::Sensitive, query, file)
}

/// The lines of `file` whose lower-case form contains the lower-case form of
/// `query`, in their order and as they stand in `file`.
pub fn search_insensitive<'a>(query: &str, file: &'a str) -> (results: Vec<&'a str>)
    ensures
        results@.len() == matching_lines(Case::Insensitive, query@, file@).len(),
        forall|i: int| 0 <= i < results@.len() ==> (#[trigger] results@[i])@ == matching_lines(Case::Insensitive, query@, file@)[i],
{
    search(Case::Insensitive, query, file)
}

/// What is said of a command line that does not give a file and a query.
pub const USAGE: &'static str = "Wrong number of args. Usage: cargo run <filename> <query>";

/// What to search for, in which file, and by which rule.
pub struct Config {
    query: String,
    filename: String,
    case_sensitive: bool,
}

/// A `Config` as plain values.
pub struct ConfigView {
    pub query: Seq<char>,
    pub filename: Seq<char>,
    pub case_sensitive: bool,
}

impl View for Config {
    type V = ConfigView;

    closed spec fn view(&self) -> ConfigView {
        ConfigView { query: self.query@, filename: self.filename@, case_sensitive: self.case_sensitive }
    }
}

/// The rule that a search goes by.
pub open spec fn rule_of(config: ConfigView) -> Case {
    if config.case_sensitive {
        Case::Sensitive
    } else {
        Case::Insensitive
    }
}

impl Config {
    /// Reads a command line of three words: the program, the file and the
    /// query. The search minds the case unless it was asked not to.
    pub fn new(args: &[String], case_insensitive: bool) -> (config: Result<Config, &'static str>)
        ensures
            match config {
                Ok(c) => args@.len() == 3 && c@ == (ConfigView {
                    query: args@[2]@,
                    filename: args@[1]@,
                    case_sensitive: !case_insensitive,
                }),
                Err(message) => args@.len() != 3 && message@ == USAGE@,
            },
    {
        if args.len() != 3 {
            return Err(USAGE);
        }
        let filename = args[1].clone();
        let query = args[2].clone();
        Ok(Config { query, filename, case_sensitive: !case_insensitive })
    }

    /// The file to search.
    pub fn filename(&self) -> (name: &str)
        ensures
            name@ == self@.filename,
    {
        self.filename.as_str()
    }

    /// The query.
    pub fn query(&self) -> (query: &str)
        ensures
            query@ == self@.query,
    {
        self.query.as_str()
    }

    /// Whether the search minds the case.
    pub fn case_sensitive(&self) -> (minds: bool)
        ensures
            minds == self@.case_sensitive,
    {
        self.case_sensitive
    }
}

/// The lines of the file's contents that the configured search finds, in
/// their order.
pub fn run<'a>(config: &Config, contents: &'a str) -> (results: Vec<&'a str>)
    ensures
        results@.len() == matching_lines(rule_of(config@), config@.query, contents@).len(),
        forall|i: int| 0 <= i < results@.len() ==> (#[trigger] results@[i])@ == matching_lines(
            rule_of(config@),
            config@.query,
            contents@,
        )[i],
{
    if config.case_sensitive {
        search_sensitive(config.query.as_str(), contents)
    } else {
        search_insensitive(config.query.as_str(), contents)
    }
}

} // verus!
