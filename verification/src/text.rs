//! Small helpers on strings and byte vectors, stated over their views.

use vstd::prelude::*;

verus! {

/// Whether two strings hold the same characters.
pub fn same_text(a: &str, b: &str) -> (r: bool)
    ensures
        r == (a@ == b@),
{
    let x = a.to_owned();
    let y = b.to_owned();
    x == y
}

/// The characters of `a` followed by those of `b`.
pub fn join(a: &str, b: &str) -> (r: String)
    ensures
        r@ == a@ + b@,
{
    let x = a.to_owned();
    x.concat(b)
}

/// The characters of a string, one element each.
pub fn chars_of(s: &str) -> (r: Vec<char>)
    ensures
        r@ == s@,
{
    let mut out: Vec<char> = Vec::new();
    for c in it: s.chars()
        invariant
            it.seq() == s@,
            out@ == it.seq().take(it.index() as int),
    {
        out.push(c);
    }
    out
}

/// Whether two byte strings hold the same bytes.
pub fn same_bytes(a: &[u8], b: &[u8]) -> (r: bool)
    ensures
        r == (a@ == b@),
{
    if a.len() != b.len() {
        return false;
    }
    let mut i: usize = 0;
    while i < a.len()
        invariant
            a.len() == b.len(),
            i <= a.len(),
            forall|j: int| 0 <= j < i ==> a@[j] == b@[j],
        decreases a.len() - i,
    {
        if a[i] != b[i] {
            return false;
        }
        i += 1;
    }
    assert(a@ =~= b@);
    true
}

/// `needle` stands in `hay` at offset `at`.
pub open spec fn occurs_at(hay: Seq<char>, needle: Seq<char>, at: int) -> bool {
    &&& 0 <= at
    &&& at + needle.len() <= hay.len()
    &&& hay.subrange(at, at + needle.len()) == needle
}

/// `needle` stands somewhere in `hay`; the empty needle stands everywhere.
pub open spec fn contains_text(hay: Seq<char>, needle: Seq<char>) -> bool {
    exists|at: int| occurs_at(hay, needle, at)
}

/// Whether `needle` stands in `hay` at offset `at`.
pub fn found_at(hay: &Vec<char>, needle: &Vec<char>, at: usize) -> (r: bool)
    requires
        at + needle.len() <= hay.len(),
    ensures
        r == occurs_at(hay@, needle@, at as int),
{
    let mut k: usize = 0;
    while k < needle.len()
        invariant
            at + needle.len() <= hay.len(),
            k <= needle.len(),
            forall|j: int| 0 <= j < k ==> hay@[at + j] == needle@[j],
        decreases needle@.len() - k,
    {
        if hay[at + k] != needle[k] {
            assert(hay@.subrange(at as int, at + needle@.len())[k as int] != needle@[k as int]);
            return false;
        }
        k += 1;
    }
    assert(hay@.subrange(at as int, at + needle@.len()) =~= needle@);
    true
}

/// Whether `needle` stands somewhere in `hay`.
pub fn contains(hay: &Vec<char>, needle: &Vec<char>) -> (r: bool)
    ensures
        r == contains_text(hay@, needle@),
{
    if needle.len() > hay.len() {
        return false;
    }
    let last: usize = hay.len() - needle.len();
    let mut at: usize = 0;
    while at < last
        invariant
            last == hay.len() - needle.len(),
            at <= last,
            forall|j: int| 0 <= j < at ==> !occurs_at(hay@, needle@, j),
        decreases last - at,
    {
        if found_at(hay, needle, at) {
            return true;
        }
        at += 1;
    }
    found_at(hay, needle, last)
}

/// The texts of a list of strings.
pub open spec fn texts_in(list: Seq<String>) -> Seq<Seq<char>> {
    list.map_values(|s: String| s@)
}

/// Whether `a` comes before `b` in the order of a dictionary that goes by
/// the characters' codes: at the first place where the two differ `a` has
/// the lower character, or `a` ends there and `b` goes on.
pub open spec fn comes_before(a: Seq<char>, b: Seq<char>) -> bool
    decreases a.len(),
{
    if b.len() == 0 {
        false
    } else if a.len() == 0 {
        true
    } else if a[0] != b[0] {
        (a[0] as u32) < (b[0] as u32)
    } else {
        comes_before(a.drop_first(), b.drop_first())
    }
}

/// Whether every text of a list comes before the ones after it.
pub open spec fn ascending(list: Seq<Seq<char>>) -> bool {
    forall|i: int, j: int| 0 <= i < j < list.len() ==> comes_before(#[trigger] list[i], #[trigger] list[j])
}

/// No text comes before itself.
pub proof fn lemma_not_before_itself(a: Seq<char>)
    ensures
        !comes_before(a, a),
    decreases a.len(),
{
    if a.len() > 0 {
        lemma_not_before_itself(a.drop_first());
    }
}

/// Of two different texts one comes before the other.
pub proof fn lemma_one_comes_first(a: Seq<char>, b: Seq<char>)
    requires
        a != b,
    ensures
        comes_before(a, b) || comes_before(b, a),
    decreases a.len(),
{
    if a.len() > 0 && b.len() > 0 && a[0] == b[0] {
        if a.drop_first() == b.drop_first() {
            assert(a =~= seq![a[0]] + a.drop_first());
            assert(b =~= seq![b[0]] + b.drop_first());
        }
        lemma_one_comes_first(a.drop_first(), b.drop_first());
    } else if a.len() == 0 && b.len() == 0 {
        assert(a =~= b);
    } else if a.len() > 0 && b.len() > 0 {
        let x = a[0] as u32;
        let y = b[0] as u32;
        if x == y {
            vstd::utf8::char_u32_cast(a[0], x);
            vstd::utf8::char_u32_cast(b[0], y);
        }
    }
}

/// What comes before a text comes before everything after that text.
pub proof fn lemma_before_goes_on(a: Seq<char>, b: Seq<char>, c: Seq<char>)
    requires
        comes_before(a, b),
        comes_before(b, c),
    ensures
        comes_before(a, c),
    decreases a.len(),
{
    if a.len() > 0 && a[0] == b[0] && b[0] == c[0] {
        lemma_before_goes_on(a.drop_first(), b.drop_first(), c.drop_first());
    }
}

/// Whether `a` comes before `b`.
pub fn before(a: &str, b: &str) -> (first: bool)
    ensures
        first == comes_before(a@, b@),
{
    let x = chars_of(a);
    let y = chars_of(b);
    let mut i: usize = 0;
    assert(a@.skip(0) =~= a@ && b@.skip(0) =~= b@);
    while i < x.len() && i < y.len() && x[i] == y[i]
        invariant
            x@ == a@,
            y@ == b@,
            i <= x@.len(),
            i <= y@.len(),
            comes_before(a@, b@) == comes_before(a@.skip(i as int), b@.skip(i as int)),
        decreases x@.len() - i,
    {
        proof {
            let p = a@.skip(i as int);
            let q = b@.skip(i as int);
            assert(p[0] == q[0]);
            assert(p.drop_first() =~= a@.skip(i + 1));
            assert(q.drop_first() =~= b@.skip(i + 1));
        }
        i += 1;
    }
    let ghost p = a@.skip(i as int);
    let ghost q = b@.skip(i as int);
    if i >= y.len() {
        assert(q.len() == 0);
        false
    } else if i >= x.len() {
        assert(p.len() == 0 && q.len() > 0);
        true
    } else {
        assert(p[0] == x@[i as int] && q[0] == y@[i as int]);
        let low: u32 = x[i] as u32;
        let high: u32 = y[i] as u32;
        low < high
    }
}

/// The texts of a list without doubles, put in ascending order.
pub fn in_order(list: &Vec<String>) -> (sorted: Vec<String>)
    requires
        texts_in(list@).no_duplicates(),
    ensures
        ascending(texts_in(sorted@)),
        sorted@.len() == list@.len(),
        forall|k: Seq<char>|
            texts_in(sorted@).contains(k) <==> texts_in(list@).contains(k),
{
    let mut sorted: Vec<String> = Vec::new();
    let mut n: usize = 0;
    while n < list.len()
        invariant
            n <= list@.len(),
            sorted@.len() == n,
            texts_in(list@).no_duplicates(),
            ascending(texts_in(sorted@)),
            forall|k: Seq<char>|
                texts_in(sorted@).contains(k) <==> texts_in(list@.take(n as int)).contains(
                    k,
                ),
        decreases list@.len() - n,
    {
        let name = list[n].clone();
        let ghost before_all = sorted@;
        let ghost old_texts = texts_in(sorted@);
        let mut at: usize = 0;
        while at < sorted.len() && before(sorted[at].as_str(), name.as_str())
            invariant
                at <= sorted@.len(),
                sorted@ == before_all,
                forall|j: int| 0 <= j < at ==> comes_before((#[trigger] sorted@[j])@, name@),
            decreases sorted@.len() - at,
        {
            at += 1;
        }
        proof {
            let taken = texts_in(list@.take(n as int));
            let all = texts_in(list@);
            assert(all[n as int] == name@);
            // the name is not among those sorted so far
            if old_texts.contains(name@) {
                let p = choose|p: int| 0 <= p < taken.len() && taken[p] == name@;
                assert(all[p] == taken[p]);
                assert(false);
            }
            if at < before_all.len() {
                assert(old_texts[at as int] == before_all[at as int]@);
                assert(old_texts.contains(old_texts[at as int]));
                lemma_one_comes_first(name@, old_texts[at as int]);
            }
        }
        sorted.insert(at, name);
        proof {
            let texts = texts_in(sorted@);
            let taken = texts_in(list@.take(n as int));
            let more = texts_in(list@.take(n + 1));
            assert(texts =~= old_texts.insert(at as int, name@));
            assert forall|i: int, j: int| 0 <= i < j < texts.len() implies comes_before(
                #[trigger] texts[i],
                #[trigger] texts[j],
            ) by {
                let oi = if i < at { i } else { i - 1 };
                let oj = if j < at { j } else { j - 1 };
                if i == at {
                    assert(texts[j] == old_texts[oj]);
                    if oj > at {
                        assert(comes_before(old_texts[at as int], old_texts[oj]));
                        lemma_before_goes_on(name@, old_texts[at as int], old_texts[oj]);
                    }
                } else if j == at {
                    assert(texts[i] == old_texts[oi]);
                    assert(before_all[oi]@ == old_texts[oi]);
                } else {
                    assert(texts[i] == old_texts[oi] && texts[j] == old_texts[oj]);
                    assert(comes_before(old_texts[oi], old_texts[oj]));
                }
            }
            assert(more =~= taken.push(name@));
            assert forall|k: Seq<char>| texts.contains(k) <==> more.contains(k) by {
                if texts.contains(k) {
                    let p = choose|p: int| 0 <= p < texts.len() && texts[p] == k;
                    if p != at {
                        let op = if p < at { p } else { p - 1 };
                        assert(old_texts[op] == k);
                        assert(old_texts.contains(k));
                        assert(taken.contains(k));
                        let q = choose|q: int| 0 <= q < taken.len() && taken[q] == k;
                        assert(more[q] == k);
                    } else {
                        assert(more[n as int] == k);
                    }
                }
                if more.contains(k) {
                    let q = choose|q: int| 0 <= q < more.len() && more[q] == k;
                    if q == n {
                        assert(texts[at as int] == k);
                    } else {
                        assert(taken[q] == k);
                        assert(taken.contains(k));
                        assert(old_texts.contains(k));
                        let p = choose|p: int| 0 <= p < old_texts.len() && old_texts[p] == k;
                        let np = if p < at { p } else { p + 1 };
                        assert(texts[np] == k);
                    }
                }
            }
        }
        n += 1;
    }
    assert(list@.take(n as int) =~= list@);
    sorted
}

} // verus!
