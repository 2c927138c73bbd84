//! Where each thing is kept below the wallet's root: the names of the
//! directories and files, as text.

use vstd::prelude::*;
use crate::text::join;

verus! {

/// The decimal digit for a number below ten.
pub open spec fn digit(d: int) -> char {
    if d == 0 {
        '0'
    } else if d == 1 {
        '1'
    } else if d == 2 {
        '2'
    } else if d == 3 {
        '3'
    } else if d == 4 {
        '4'
    } else if d == 5 {
        '5'
    } else if d == 6 {
        '6'
    } else if d == 7 {
        '7'
    } else if d == 8 {
        '8'
    } else {
        '9'
    }
}

/// A number in decimal, without leading zeros.
pub open spec fn decimal(n: nat) -> Seq<char>
    decreases n,
{
    if n < 10 {
        seq![digit(n as int)]
    } else {
        decimal(n / 10).push(digit((n % 10) as int))
    }
}

fn digit_text(d: u64) -> (text: &'static str)
    requires
        d < 10,
    ensures
        text@ == seq![digit(d as int)],
{
    proof {
        reveal_strlit("0");
        reveal_strlit("1");
        reveal_strlit("2");
        reveal_strlit("3");
        reveal_strlit("4");
        reveal_strlit("5");
        reveal_strlit("6");
        reveal_strlit("7");
        reveal_strlit("8");
        reveal_strlit("9");
    }
    let text = if d == 0 {
        "0"
    } else if d == 1 {
        "1"
    } else if d == 2 {
        "2"
    } else if d == 3 {
        "3"
    } else if d == 4 {
        "4"
    } else if d == 5 {
        "5"
    } else if d == 6 {
        "6"
    } else if d == 7 {
        "7"
    } else if d == 8 {
        "8"
    } else {
        "9"
    };
    assert(text@ =~= seq![digit(d as int)]);
    text
}

/// The decimal form of `n`.
pub fn decimal_text(n: u64) -> (text: String)
    ensures
        text@ == decimal(n as nat),
    decreases n,
{
    if n < 10 {
        digit_text(n).to_owned()
    } else {
        let mut text = decimal_text(n / 10);
        text.append(digit_text(n % 10));
        assert(text@ =~= decimal((n / 10) as nat).push(digit((n % 10) as int)));
        text
    }
}

/// The number that a decimal digit stands for.
pub open spec fn digit_value(c: char) -> Option<nat> {
    if c == '0' {
        Some(0)
    } else if c == '1' {
        Some(1)
    } else if c == '2' {
        Some(2)
    } else if c == '3' {
        Some(3)
    } else if c == '4' {
        Some(4)
    } else if c == '5' {
        Some(5)
    } else if c == '6' {
        Some(6)
    } else if c == '7' {
        Some(7)
    } else if c == '8' {
        Some(8)
    } else if c == '9' {
        Some(9)
    } else {
        None
    }
}

/// The number that a text of decimal digits stands for; `None` for the empty
/// text and for a text that holds anything but digits.
pub open spec fn number_of(text: Seq<char>) -> Option<nat>
    decreases text.len(),
{
    if text.len() == 0 {
        None
    } else if text.len() == 1 {
        digit_value(text[0])
    } else {
        match (number_of(text.drop_last()), digit_value(text.last())) {
            (Some(high), Some(low)) => Some(high * 10 + low),
            _ => None,
        }
    }
}

/// The message id that a text stands for: its number, where that fits.
pub open spec fn id_of(text: Seq<char>) -> Option<u64> {
    match number_of(text) {
        Some(n) => if n <= u64::MAX {
            Some(n as u64)
        } else {
            None
        },
        None => None,
    }
}

fn value_of_digit(c: char) -> (value: Option<u64>)
    ensures
        match value {
            Some(v) => digit_value(c) == Some(v as nat) && v < 10,
            None => digit_value(c) is None,
        },
{
    if c == '0' {
        Some(0)
    } else if c == '1' {
        Some(1)
    } else if c == '2' {
        Some(2)
    } else if c == '3' {
        Some(3)
    } else if c == '4' {
        Some(4)
    } else if c == '5' {
        Some(5)
    } else if c == '6' {
        Some(6)
    } else if c == '7' {
        Some(7)
    } else if c == '8' {
        Some(8)
    } else if c == '9' {
        Some(9)
    } else {
        None
    }
}

/// A number only grows with every further digit.
proof fn lemma_number_grows(text: Seq<char>, n: int)
    requires
        0 < n <= text.len(),
        number_of(text) is Some,
    ensures
        number_of(text.take(n)) is Some,
        number_of(text.take(n))->0 <= number_of(text)->0,
    decreases text.len(),
{
    if n == text.len() {
        assert(text.take(n) =~= text);
    } else {
        assert(text.drop_last().take(n) =~= text.take(n));
        lemma_number_grows(text.drop_last(), n);
    }
}

/// Without its digits read so far a text is no number where one of them is
/// none.
proof fn lemma_no_number(text: Seq<char>, n: int)
    requires
        0 < n <= text.len(),
        number_of(text.take(n)) is None,
    ensures
        number_of(text) is None,
    decreases text.len(),
{
    if n == text.len() {
        assert(text.take(n) =~= text);
    } else {
        assert(text.drop_last().take(n) =~= text.take(n));
        lemma_no_number(text.drop_last(), n);
    }
}

/// Reads a message id from its decimal form.
pub fn parse_id(text: &str) -> (id: Option<u64>)
    ensures
        id == id_of(text@),
{
    let chars = crate::text::chars_of(text);
    if chars.len() == 0 {
        return None;
    }
    let mut value: u64 = 0;
    let mut i: usize = 0;
    while i < chars.len()
        invariant
            chars@ == text@,
            i <= chars@.len(),
            i > 0 ==> number_of(chars@.take(i as int)) == Some(value as nat),
            i == 0 ==> value == 0,
        decreases chars@.len() - i,
    {
        let ghost seen = chars@.take(i as int);
        let ghost more = chars@.take(i + 1);
        proof {
            assert(more.drop_last() =~= seen);
            assert(more.last() == chars@[i as int]);
        }
        let low = match value_of_digit(chars[i]) {
            Some(low) => low,
            None => {
                proof {
                    lemma_no_number(chars@, i + 1);
                }
                return None;
            },
        };
        if value > (u64::MAX - low) / 10 {
            proof {
                assert(value * 10 + low > u64::MAX);
                assert(number_of(more) == Some((value * 10 + low) as nat));
                if number_of(chars@) is Some {
                    lemma_number_grows(chars@, i + 1);
                }
            }
            return None;
        }
        value = value * 10 + low;
        i += 1;
    }
    proof {
        assert(chars@.take(i as int) =~= chars@);
    }
    Some(value)
}

/// The decimal form of a number reads back as the number.
pub proof fn lemma_decimal_reads_back(n: nat)
    ensures
        number_of(decimal(n)) == Some(n),
    decreases n,
{
    if n < 10 {
    } else {
        lemma_decimal_reads_back(n / 10);
        let text = decimal(n);
        assert(text.drop_last() =~= decimal(n / 10));
        assert(text.last() == digit((n % 10) as int));
        lemma_decimal_len(n / 10);
    }
}

/// A decimal form has at least one digit.
proof fn lemma_decimal_len(n: nat)
    ensures
        decimal(n).len() >= 1,
    decreases n,
{
    if n >= 10 {
        lemma_decimal_len(n / 10);
    }
}

/// The wallet's root directory.
pub const ROOT: &'static str = "./.did/";

/// The file of the key pair, below the root.
pub const KEY_FILE: &'static str = "key.jwk";

/// The directory of the connections by alias, below the root.
pub const NAMES_DIR: &'static str = "names/";

/// The directory of the connections by DID, below the root.
pub const DIDS_DIR: &'static str = "dids/";

/// The directory of the sealed messages, below the root.
pub const MESSAGES_DIR: &'static str = "messages/";

/// The directory of the held credentials, below the root.
pub const CREDENTIALS_DIR: &'static str = "credentials/";

/// The directory of the presentations, below the root.
pub const PRESENTATIONS_DIR: &'static str = "presentations/";

/// The ending of the file of a sealed record.
pub const RECORD_SUFFIX: &'static str = ".dcem";

/// Something right below the root.
pub open spec fn in_root(name: Seq<char>) -> Seq<char> {
    ROOT@ + name
}

/// The file of `name` in the directory `dir` below the root.
pub open spec fn in_dir(dir: Seq<char>, name: Seq<char>) -> Seq<char> {
    ROOT@ + dir + name
}

/// The file of the record `id` in the directory `dir` below the root: its
/// name is the id in decimal, with the ending of a sealed record.
pub open spec fn record_in(dir: Seq<char>, id: u64) -> Seq<char> {
    ROOT@ + dir + decimal(id as nat) + RECORD_SUFFIX@
}

fn below_root(dir: &str, name: &str) -> (path: String)
    ensures
        path@ == in_dir(dir@, name@),
{
    let mut path = join(ROOT, dir);
    path.append(name);
    path
}

fn record_below_root(dir: &str, id: u64) -> (path: String)
    ensures
        path@ == record_in(dir@, id),
{
    let mut path = below_root(dir, decimal_text(id).as_str());
    path.append(RECORD_SUFFIX);
    path
}

/// The wallet's root directory.
pub fn root_path() -> (path: String)
    ensures
        path@ == ROOT@,
{
    ROOT.to_owned()
}

/// The file that holds the wallet's key pair.
pub fn key_jwk_path() -> (path: String)
    ensures
        path@ == in_root(KEY_FILE@),
{
    join(ROOT, KEY_FILE)
}

/// The directory of the connections by alias.
pub fn names_path() -> (path: String)
    ensures
        path@ == in_root(NAMES_DIR@),
{
    join(ROOT, NAMES_DIR)
}

/// The file that holds the DID of the alias `name`.
pub fn name_path(name: &str) -> (path: String)
    ensures
        path@ == in_dir(NAMES_DIR@, name@),
{
    below_root(NAMES_DIR, name)
}

/// The directory of the connections by DID.
pub fn dids_path() -> (path: String)
    ensures
        path@ == in_root(DIDS_DIR@),
{
    join(ROOT, DIDS_DIR)
}

/// The file that holds the alias of `did`.
pub fn did_path(did: &str) -> (path: String)
    ensures
        path@ == in_dir(DIDS_DIR@, did@),
{
    below_root(DIDS_DIR, did)
}

/// The directory of the sealed messages.
pub fn messages_path() -> (path: String)
    ensures
        path@ == in_root(MESSAGES_DIR@),
{
    join(ROOT, MESSAGES_DIR)
}

/// The file of the sealed message with the id `id`.
pub fn message_path(id: u64) -> (path: String)
    ensures
        path@ == record_in(MESSAGES_DIR@, id),
{
    record_below_root(MESSAGES_DIR, id)
}

/// The directory of the held credentials.
pub fn credentials_path() -> (path: String)
    ensures
        path@ == in_root(CREDENTIALS_DIR@),
{
    join(ROOT, CREDENTIALS_DIR)
}

/// The file of the held credential with the id `id`.
pub fn credential_path(id: u64) -> (path: String)
    ensures
        path@ == record_in(CREDENTIALS_DIR@, id),
{
    record_below_root(CREDENTIALS_DIR, id)
}

/// The directory of the presentations.
pub fn presentations_path() -> (path: String)
    ensures
        path@ == in_root(PRESENTATIONS_DIR@),
{
    join(ROOT, PRESENTATIONS_DIR)
}

/// The file of the presentation with the id `id`.
pub fn presentation_path(id: u64) -> (path: String)
    ensures
        path@ == record_in(PRESENTATIONS_DIR@, id),
{
    record_below_root(PRESENTATIONS_DIR, id)
}

/// The path of the record `id` names `id` again: what stands between the
/// directory and the ending reads back as the id.
pub proof fn lemma_record_path_names_id(dir: Seq<char>, id: u64)
    ensures
        ({
            let path = record_in(dir, id);
            let from = ROOT@.len() + dir.len();
            let to = path.len() - RECORD_SUFFIX@.len();
            &&& from <= to <= path.len()
            &&& id_of(path.subrange(from as int, to as int)) == Some(id)
        }),
{
    lemma_decimal_reads_back(id as nat);
    let path = record_in(dir, id);
    let from = ROOT@.len() + dir.len();
    let to = path.len() - RECORD_SUFFIX@.len();
    assert(path.subrange(from as int, to as int) =~= decimal(id as nat));
}

} // verus!
