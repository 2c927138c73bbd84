//! The wallet's store, held in memory: the key file, the two connection
//! indexes, and the sealed records kept under their message ids.

use vstd::prelude::*;
use crate::text::{same_text, texts_in};

verus! {

/// One line of a name table.
pub struct Entry {
    pub key: String,
    pub value: String,
}

/// Whether some line of `entries` has the key `key`.
pub open spec fn has_key(entries: Seq<Entry>, key: Seq<char>) -> bool {
    exists|i: int| 0 <= i < entries.len() && (#[trigger] entries[i]).key@ == key
}

/// The line of `entries` that has the key `key`.
pub open spec fn line_of(entries: Seq<Entry>, key: Seq<char>) -> int {
    choose|i: int| 0 <= i < entries.len() && (#[trigger] entries[i]).key@ == key
}

/// No key stands on two lines.
pub open spec fn keys_distinct(entries: Seq<Entry>) -> bool {
    forall|i: int, j: int|
        0 <= i < entries.len() && 0 <= j < entries.len() && (#[trigger] entries[i]).key@ == (
        #[trigger] entries[j]).key@ ==> i == j
}

/// The map that a sequence of lines with distinct keys stands for.
pub open spec fn table_of(entries: Seq<Entry>) -> Map<Seq<char>, Seq<char>> {
    Map::new(
        |key: Seq<char>| has_key(entries, key),
        |key: Seq<char>| entries[line_of(entries, key)].value@,
    )
}

/// The keys of the lines, in their order.
pub open spec fn keys_in_order(entries: Seq<Entry>) -> Seq<Seq<char>> {
    entries.map_values(|line: Entry| line.key@)
}

/// A map from text to text in which every key has one value, and which
/// remembers the order in which its keys came.
pub struct NameTable {
    entries: Vec<Entry>,
}

impl View for NameTable {
    type V = Map<Seq<char>, Seq<char>>;

    closed spec fn view(&self) -> Map<Seq<char>, Seq<char>> {
        table_of(self.entries@)
    }
}

impl NameTable {
    /// No key stands twice.
    pub closed spec fn wf(&self) -> bool {
        keys_distinct(self.entries@)
    }

    /// The keys, in the order in which they were first put.
    pub closed spec fn order(&self) -> Seq<Seq<char>> {
        keys_in_order(self.entries@)
    }

    /// The order holds every key of the table once, and nothing else.
    pub proof fn lemma_order(&self)
        requires
            self.wf(),
        ensures
            self.order().no_duplicates(),
            forall|key: Seq<char>| self@.contains_key(key) <==> self.order().contains(key),
    {
        let order = self.order();
        assert forall|key: Seq<char>| self@.contains_key(key) <==> order.contains(key) by {
            if self@.contains_key(key) {
                assert(order[line_of(self.entries@, key)] == key);
            }
            if order.contains(key) {
                let i = choose|i: int| 0 <= i < order.len() && order[i] == key;
                assert(self.entries@[i].key@ == key);
            }
        }
        assert forall|i: int, j: int| 0 <= i < order.len() && 0 <= j < order.len() && i != j implies order[i]
            != order[j] by {
            assert(self.entries@[i].key@ == order[i] && self.entries@[j].key@ == order[j]);
        }
    }

    /// The table without any entry.
    pub fn new() -> (table: NameTable)
        ensures
            table.wf(),
            table@ == Map::<Seq<char>, Seq<char>>::empty(),
            table.order() == Seq::<Seq<char>>::empty(),
    {
        let table = NameTable { entries: Vec::new() };
        assert(table@ =~= Map::<Seq<char>, Seq<char>>::empty());
        assert(table.order() =~= Seq::<Seq<char>>::empty());
        table
    }

    /// Number of keys.
    pub fn len(&self) -> (n: usize)
        requires
            self.wf(),
        ensures
            n == self@.dom().len(),
            self@.dom().finite(),
    {
        proof {
            lemma_table_size(self.entries@);
        }
        self.entries.len()
    }

    fn position(&self, key: &str) -> (at: Option<usize>)
        ensures
            match at {
                Some(i) => i < self.entries@.len() && self.entries@[i as int].key@ == key@,
                None => !has_key(self.entries@, key@),
            },
    {
        let mut i: usize = 0;
        while i < self.entries.len()
            invariant
                i <= self.entries@.len(),
                forall|j: int| 0 <= j < i ==> (#[trigger] self.entries@[j]).key@ != key@,
            decreases self.entries@.len() - i,
        {
            if same_text(self.entries[i].key.as_str(), key) {
                return Some(i);
            }
            i += 1;
        }
        None
    }

    /// The value that stands under `key`, if any.
    pub fn get(&self, key: &str) -> (value: Option<String>)
        requires
            self.wf(),
        ensures
            match value {
                Some(v) => self@.contains_key(key@) && self@[key@] == v@,
                None => !self@.contains_key(key@),
            },
    {
        match self.position(key) {
            Some(i) => Some(self.entries[i].value.clone()),
            None => None,
        }
    }

    /// Puts `value` under `key` and hands back what stood there before. A
    /// key that is new comes last in the order; one that was there keeps its
    /// place.
    pub fn put(&mut self, key: &str, value: &str) -> (previous: Option<String>)
        requires
            old(self).wf(),
        ensures
            final(self).wf(),
            final(self)@ == old(self)@.insert(key@, value@),
            final(self).order() == if old(self)@.contains_key(key@) {
                old(self).order()
            } else {
                old(self).order().push(key@)
            },
            match previous {
                Some(v) => old(self)@.contains_key(key@) && old(self)@[key@] == v@,
                None => !old(self)@.contains_key(key@),
            },
    {
        let line = Entry { key: key.to_owned(), value: value.to_owned() };
        let ghost before = self.entries@;
        match self.position(key) {
            Some(i) => {
                let previous = self.entries[i].value.clone();
                self.entries[i] = line;
                proof {
                    let after = self.entries@;
                    assert forall|k: Seq<char>| has_key(after, k) == has_key(before, k) by {
                        if has_key(before, k) {
                            assert(after[line_of(before, k)].key@ == k);
                        }
                        if has_key(after, k) {
                            assert(before[line_of(after, k)].key@ == k);
                        }
                    }
                    assert(table_of(after) =~= table_of(before).insert(key@, value@));
                    assert(keys_in_order(after) =~= keys_in_order(before));
                }
                Some(previous)
            },
            None => {
                self.entries.push(line);
                proof {
                    let after = self.entries@;
                    assert(after[before.len() as int].key@ == key@);
                    assert forall|k: Seq<char>| has_key(after, k) == (has_key(before, k) || k == key@) by {
                        if has_key(before, k) {
                            assert(after[line_of(before, k)].key@ == k);
                        }
                    }
                    assert forall|k: Seq<char>| has_key(after, k) implies table_of(after)[k] == table_of(
                        before,
                    ).insert(key@, value@)[k] by {
                        if k != key@ {
                            assert(after[line_of(before, k)].key@ == k);
                        }
                    }
                    assert(table_of(after) =~= table_of(before).insert(key@, value@));
                    assert(keys_in_order(after) =~= keys_in_order(before).push(key@));
                }
                None
            },
        }
    }

    /// Takes `key` and its value out of the table and hands the value back.
    /// The other keys keep their order.
    pub fn remove(&mut self, key: &str) -> (previous: Option<String>)
        requires
            old(self).wf(),
        ensures
            final(self).wf(),
            final(self)@ == old(self)@.remove(key@),
            final(self).order() == if old(self)@.contains_key(key@) {
                old(self).order().remove(old(self).order().index_of(key@))
            } else {
                old(self).order()
            },
            match previous {
                Some(v) => old(self)@.contains_key(key@) && old(self)@[key@] == v@,
                None => !old(self)@.contains_key(key@),
            },
    {
        let ghost before = self.entries@;
        match self.position(key) {
            Some(i) => {
                let line = self.entries.remove(i);
                proof {
                    let after = self.entries@;
                    assert forall|a: int, b: int|
                        0 <= a < after.len() && 0 <= b < after.len() && (#[trigger] after[a]).key@ == (
                        #[trigger] after[b]).key@ implies a == b by {
                        let ba = if a < i { a } else { a + 1 };
                        let bb = if b < i { b } else { b + 1 };
                        assert(before[ba].key@ == before[bb].key@);
                    }
                    assert forall|k: Seq<char>| has_key(after, k) == (has_key(before, k) && k != key@) by {
                        if has_key(before, k) && k != key@ {
                            let p = line_of(before, k);
                            let a = if p < i { p } else { p - 1 };
                            assert(after[a].key@ == k);
                        }
                        if has_key(after, k) {
                            let a = line_of(after, k);
                            let p = if a < i { a } else { a + 1 };
                            assert(before[p].key@ == k);
                            assert(before[i as int].key@ == key@);
                        }
                    }
                    assert forall|k: Seq<char>| has_key(after, k) implies table_of(after)[k] == table_of(
                        before,
                    )[k] by {
                        let a = line_of(after, k);
                        let p = if a < i { a } else { a + 1 };
                        assert(before[p].key@ == k);
                        assert(before[line_of(before, k)].key@ == k);
                    }
                    assert(table_of(after) =~= table_of(before).remove(key@));
                    let order = keys_in_order(before);
                    assert(order[i as int] == key@);
                    let at = order.index_of(key@);
                    assert(0 <= at < order.len() && order[at] == key@);
                    assert(before[at].key@ == before[i as int].key@);
                    assert(keys_in_order(after) =~= order.remove(at));
                }
                Some(line.value)
            },
            None => None,
        }
    }

    /// The keys, in the order in which they were first put.
    pub fn keys(&self) -> (keys: Vec<String>)
        requires
            self.wf(),
        ensures
            texts_in(keys@) == self.order(),
    {
        let mut keys: Vec<String> = Vec::new();
        let mut i: usize = 0;
        while i < self.entries.len()
            invariant
                i <= self.entries@.len(),
                keys@.len() == i,
                forall|j: int| 0 <= j < i ==> (#[trigger] keys@[j])@ == self.entries@[j].key@,
            decreases self.entries@.len() - i,
        {
            keys.push(self.entries[i].key.clone());
            i += 1;
        }
        assert(texts_in(keys@) =~= keys_in_order(self.entries@));
        keys
    }
}

/// A table of `n` lines with distinct keys has `n` keys.
proof fn lemma_table_size(entries: Seq<Entry>)
    requires
        keys_distinct(entries),
    ensures
        table_of(entries).dom().finite(),
        table_of(entries).dom().len() == entries.len(),
    decreases entries.len(),
{
    if entries.len() == 0 {
        assert(table_of(entries).dom() =~= Set::<Seq<char>>::empty());
    } else {
        let front = entries.drop_last();
        let key = entries.last().key@;
        lemma_table_size(front);
        assert forall|k: Seq<char>| has_key(entries, k) == (has_key(front, k) || k == key) by {
            if has_key(front, k) {
                assert(entries[line_of(front, k)].key@ == k);
            }
            if has_key(entries, k) && k != key {
                assert(front[line_of(entries, k)].key@ == k);
            }
            if k == key {
                assert(entries[entries.len() - 1].key@ == k);
            }
        }
        assert(!has_key(front, key)) by {
            if has_key(front, key) {
                assert(entries[line_of(front, key)].key@ == entries[entries.len() - 1].key@);
            }
        }
        assert(table_of(entries).dom() =~= table_of(front).dom().insert(key));
    }
}

/// One sealed record and the message id it is kept under.
pub struct Record {
    pub id: u64,
    pub envelope: String,
}

/// Whether some record has the id `id`.
pub open spec fn has_id(records: Seq<Record>, id: u64) -> bool {
    exists|i: int| 0 <= i < records.len() && (#[trigger] records[i]).id == id
}

/// The place of the record that has the id `id`.
pub open spec fn place_of(records: Seq<Record>, id: u64) -> int {
    choose|i: int| 0 <= i < records.len() && (#[trigger] records[i]).id == id
}

/// The ids grow strictly from one record to the next.
pub open spec fn ids_ascend(records: Seq<Record>) -> bool {
    forall|i: int, j: int|
        0 <= i < j < records.len() ==> (#[trigger] records[i]).id < (#[trigger] records[j]).id
}

/// The map that a sequence of records with ascending ids stands for.
pub open spec fn records_of(records: Seq<Record>) -> Map<u64, Seq<char>> {
    Map::new(|id: u64| has_id(records, id), |id: u64| records[place_of(records, id)].envelope@)
}

/// Sealed records by message id, kept in ascending order of id.
pub struct RecordTable {
    records: Vec<Record>,
}

impl View for RecordTable {
    type V = Map<u64, Seq<char>>;

    closed spec fn view(&self) -> Map<u64, Seq<char>> {
        records_of(self.records@)
    }
}

impl RecordTable {
    /// The ids ascend, so none stands twice.
    pub closed spec fn wf(&self) -> bool {
        ids_ascend(self.records@)
    }

    /// The table without any record.
    pub fn new() -> (table: RecordTable)
        ensures
            table.wf(),
            table@ == Map::<u64, Seq<char>>::empty(),
    {
        let table = RecordTable { records: Vec::new() };
        assert(table@ =~= Map::<u64, Seq<char>>::empty());
        table
    }

    /// First place whose id is not below `id`.
    fn lower_bound(&self, id: u64) -> (at: usize)
        requires
            self.wf(),
        ensures
            at <= self.records@.len(),
            forall|j: int| 0 <= j < at ==> (#[trigger] self.records@[j]).id < id,
            at < self.records@.len() ==> self.records@[at as int].id >= id,
    {
        let mut i: usize = 0;
        while i < self.records.len() && self.records[i].id < id
            invariant
                i <= self.records@.len(),
                forall|j: int| 0 <= j < i ==> (#[trigger] self.records@[j]).id < id,
            decreases self.records@.len() - i,
        {
            i += 1;
        }
        i
    }

    /// The envelope kept under `id`, if any.
    pub fn get(&self, id: u64) -> (envelope: Option<String>)
        requires
            self.wf(),
        ensures
            match envelope {
                Some(e) => self@.contains_key(id) && self@[id] == e@,
                None => !self@.contains_key(id),
            },
    {
        let at = self.lower_bound(id);
        if at < self.records.len() && self.records[at].id == id {
            Some(self.records[at].envelope.clone())
        } else {
            proof {
                if has_id(self.records@, id) {
                    let p = place_of(self.records@, id);
                    assert(self.records@[p].id == id);
                    if p < at {
                    } else if p > at {
                        assert(self.records@[at as int].id < self.records@[p].id);
                    }
                }
            }
            None
        }
    }

    /// Keeps `envelope` under `id` and hands back what was kept there before.
    pub fn put(&mut self, id: u64, envelope: &str) -> (previous: Option<String>)
        requires
            old(self).wf(),
        ensures
            final(self).wf(),
            final(self)@ == old(self)@.insert(id, envelope@),
            match previous {
                Some(e) => old(self)@.contains_key(id) && old(self)@[id] == e@,
                None => !old(self)@.contains_key(id),
            },
    {
        let record = Record { id, envelope: envelope.to_owned() };
        let ghost before = self.records@;
        let at = self.lower_bound(id);
        if at < self.records.len() && self.records[at].id == id {
            let previous = self.records[at].envelope.clone();
            self.records[at] = record;
            proof {
                let after = self.records@;
                assert forall|k: u64| has_id(after, k) == has_id(before, k) by {
                    if has_id(before, k) {
                        assert(after[place_of(before, k)].id == k);
                    }
                    if has_id(after, k) {
                        assert(before[place_of(after, k)].id == k);
                    }
                }
                assert forall|i: int, j: int| 0 <= i < j < after.len() implies (#[trigger] after[i]).id < (
                #[trigger] after[j]).id by {
                    assert(before[i].id < before[j].id);
                }
                assert forall|k: u64| has_id(after, k) implies records_of(after)[k] == records_of(
                    before,
                ).insert(id, envelope@)[k] by {
                    let p = place_of(after, k);
                    let q = place_of(before, k);
                    assert(before[p].id == k && before[q].id == k);
                    if p < q {
                        assert(before[p].id < before[q].id);
                    } else if q < p {
                        assert(before[q].id < before[p].id);
                    }
                    if k == id {
                        if p < at {
                            assert(before[p].id < before[at as int].id);
                        } else if at < p {
                            assert(before[at as int].id < before[p].id);
                        }
                    }
                }
                assert(records_of(after) =~= records_of(before).insert(id, envelope@));
            }
            Some(previous)
        } else {
            self.records.insert(at, record);
            proof {
                let after = self.records@;
                assert(after[at as int].id == id);
                assert forall|i: int, j: int| 0 <= i < j < after.len() implies (#[trigger] after[i]).id < (
                #[trigger] after[j]).id by {
                    let bi = if i < at { i } else { i - 1 };
                    let bj = if j < at { j } else { j - 1 };
                    if i != at && j != at {
                        assert(before[bi].id < before[bj].id);
                    } else if i == at {
                        assert(before[bj].id >= id) by {
                            if bj > at {
                                assert(before[at as int].id < before[bj].id);
                            }
                        }
                    } else {
                        assert(before[bi].id < id);
                    }
                }
                assert(!has_id(before, id)) by {
                    if has_id(before, id) {
                        let p = place_of(before, id);
                        if p < at {
                        } else if p > at {
                            assert(before[at as int].id < before[p].id);
                        }
                    }
                }
                assert forall|k: u64| has_id(after, k) == (has_id(before, k) || k == id) by {
                    if has_id(before, k) {
                        let p = place_of(before, k);
                        let a = if p < at { p } else { p + 1 };
                        assert(after[a].id == k);
                    }
                    if has_id(after, k) && k != id {
                        let a = place_of(after, k);
                        let p = if a < at { a } else { a - 1 };
                        assert(before[p].id == k);
                    }
                }
                assert forall|k: u64| has_id(after, k) implies records_of(after)[k] == records_of(
                    before,
                ).insert(id, envelope@)[k] by {
                    let a = place_of(after, k);
                    if k == id {
                        if a < at {
                            assert(after[a].id < after[at as int].id);
                        } else if a > at {
                            assert(after[at as int].id < after[a].id);
                        }
                    } else {
                        let p = if a < at { a } else { a - 1 };
                        let q = place_of(before, k);
                        assert(before[p].id == k);
                        if p < q {
                            assert(before[p].id < before[q].id);
                        } else if q < p {
                            assert(before[q].id < before[p].id);
                        }
                    }
                }
                assert(records_of(after) =~= records_of(before).insert(id, envelope@));
            }
            None
        }
    }

    /// The ids under which something is kept, in ascending order.
    pub fn ids(&self) -> (ids: Vec<u64>)
        requires
            self.wf(),
        ensures
            forall|i: int, j: int| 0 <= i < j < ids@.len() ==> ids@[i] < ids@[j],
            forall|id: u64| self@.contains_key(id) <==> ids@.contains(id),
    {
        let mut ids: Vec<u64> = Vec::new();
        let mut i: usize = 0;
        while i < self.records.len()
            invariant
                i <= self.records@.len(),
                ids@.len() == i,
                forall|j: int| 0 <= j < i ==> ids@[j] == (#[trigger] self.records@[j]).id,
            decreases self.records@.len() - i,
        {
            ids.push(self.records[i].id);
            i += 1;
        }
        proof {
            assert forall|i: int, j: int| 0 <= i < j < ids@.len() implies ids@[i] < ids@[j] by {
                assert(self.records@[i].id < self.records@[j].id);
            }
            assert forall|id: u64| self@.contains_key(id) <==> ids@.contains(id) by {
                if self@.contains_key(id) {
                    let p = place_of(self.records@, id);
                    assert(ids@[p] == id);
                }
                if ids@.contains(id) {
                    let p = choose|p: int| 0 <= p < ids@.len() && ids@[p] == id;
                    assert(self.records@[p].id == id);
                }
            }
        }
        ids
    }
}

/// The shelves of the store on which sealed records are kept.
#[derive(Clone, Copy, Debug, PartialEq, Eq, Structural)]
pub enum Shelf {
    Messages,
    Credentials,
    Presentations,
}

/// Everything the wallet keeps: the key file, the connections by alias and
/// by DID, and the sealed messages, credentials and presentations. It is
/// read through its methods and changed by the wallet's operations alone.
pub struct WalletStore {
    key_file: Option<String>,
    names: NameTable,
    dids: NameTable,
    messages: RecordTable,
    credentials: RecordTable,
    presentations: RecordTable,
}

/// A `WalletStore` as maps.
pub struct WalletView {
    pub key_file: Option<Seq<char>>,
    pub names: Map<Seq<char>, Seq<char>>,
    pub dids: Map<Seq<char>, Seq<char>>,
    pub messages: Map<u64, Seq<char>>,
    pub credentials: Map<u64, Seq<char>>,
    pub presentations: Map<u64, Seq<char>>,
}

/// The store that keeps nothing.
pub open spec fn empty_wallet() -> WalletView {
    WalletView {
        key_file: None,
        names: Map::empty(),
        dids: Map::empty(),
        messages: Map::empty(),
        credentials: Map::empty(),
        presentations: Map::empty(),
    }
}

/// What a shelf holds.
pub open spec fn shelf_of(store: WalletView, shelf: Shelf) -> Map<u64, Seq<char>> {
    match shelf {
        Shelf::Messages => store.messages,
        Shelf::Credentials => store.credentials,
        Shelf::Presentations => store.presentations,
    }
}

/// The store with `envelope` kept under `id` on a shelf.
pub open spec fn kept_on(store: WalletView, shelf: Shelf, id: u64, envelope: Seq<char>) -> WalletView {
    match shelf {
        Shelf::Messages => WalletView { messages: store.messages.insert(id, envelope), ..store },
        Shelf::Credentials => WalletView { credentials: store.credentials.insert(id, envelope), ..store },
        Shelf::Presentations => WalletView { presentations: store.presentations.insert(id, envelope), ..store },
    }
}

/// Whether a map leads from a key to a value.
pub open spec fn leads(map: Map<Seq<char>, Seq<char>>, key: Seq<char>, value: Seq<char>) -> bool {
    map.contains_key(key) && map[key] == value
}

/// Whether the two indexes of the connections mirror each other: an alias
/// leads to a DID exactly if that DID leads to that alias. So every alias
/// has one DID and every DID one alias.
pub open spec fn mirrored(store: WalletView) -> bool {
    forall|alias: Seq<char>, did: Seq<char>|
        #![trigger leads(store.names, alias, did)]
        #![trigger leads(store.dids, did, alias)]
        leads(store.names, alias, did) <==> leads(store.dids, did, alias)
}

/// The store after `alias` and `did` were connected: `alias` leads to `did`
/// and `did` leads to `alias`. What either led to before is dropped from
/// both indexes: the DID that the alias led to no longer leads anywhere, and
/// neither does the alias that the DID led to.
pub open spec fn connected(store: WalletView, alias: Seq<char>, did: Seq<char>) -> WalletView {
    let names = if store.dids.contains_key(did) {
        store.names.remove(store.dids[did])
    } else {
        store.names
    };
    let dids = if store.names.contains_key(alias) {
        store.dids.remove(store.names[alias])
    } else {
        store.dids
    };
    WalletView { names: names.insert(alias, did), dids: dids.insert(did, alias), ..store }
}

/// The store after the connections on the lines were made one after the
/// other, each line an alias with its DID.
pub open spec fn replayed(store: WalletView, lines: Seq<Entry>) -> WalletView
    decreases lines.len(),
{
    if lines.len() == 0 {
        store
    } else {
        connected(replayed(store, lines.drop_last()), lines.last().key@, lines.last().value@)
    }
}

/// Connecting keeps the two indexes mirrors of each other.
pub proof fn lemma_connected_mirrors(store: WalletView, alias: Seq<char>, did: Seq<char>)
    requires
        mirrored(store),
    ensures
        mirrored(connected(store, alias, did)),
{
    let after = connected(store, alias, did);
    assert forall|a: Seq<char>, d: Seq<char>| leads(after.names, a, d) <==> leads(after.dids, d, a) by {
        if leads(after.names, a, d) && a != alias {
            assert(leads(store.names, a, d));
            assert(leads(store.dids, d, a));
            if store.names.contains_key(alias) && store.names[alias] == d {
                assert(leads(store.names, alias, d));
                assert(leads(store.dids, d, alias));
            }
        }
        if leads(after.dids, d, a) && d != did {
            assert(leads(store.dids, d, a));
            assert(leads(store.names, a, d));
            if store.dids.contains_key(did) && store.dids[did] == a {
                assert(leads(store.dids, did, a));
                assert(leads(store.names, a, did));
            }
        }
    }
}

/// Replaying connections keeps the two indexes mirrors of each other.
pub proof fn lemma_replayed_mirrors(store: WalletView, lines: Seq<Entry>)
    requires
        mirrored(store),
    ensures
        mirrored(replayed(store, lines)),
    decreases lines.len(),
{
    if lines.len() > 0 {
        lemma_replayed_mirrors(store, lines.drop_last());
        lemma_connected_mirrors(replayed(store, lines.drop_last()), lines.last().key@, lines.last().value@);
    }
}

/// The view of an optional text.
pub open spec fn text_in(text: Option<String>) -> Option<Seq<char>> {
    match text {
        Some(t) => Some(t@),
        None => None,
    }
}

impl View for WalletStore {
    type V = WalletView;

    closed spec fn view(&self) -> WalletView {
        WalletView {
            key_file: text_in(self.key_file),
            names: self.names@,
            dids: self.dids@,
            messages: self.messages@,
            credentials: self.credentials@,
            presentations: self.presentations@,
        }
    }
}

impl WalletStore {
    /// Every table is well formed, and the two indexes of the connections
    /// mirror each other.
    pub closed spec fn wf(&self) -> bool {
        &&& self.names.wf()
        &&& self.dids.wf()
        &&& self.messages.wf()
        &&& self.credentials.wf()
        &&& self.presentations.wf()
        &&& mirrored(self@)
    }

    /// In a store the two indexes of the connections mirror each other.
    pub proof fn lemma_mirrored(&self)
        requires
            self.wf(),
        ensures
            mirrored(self@),
    {
    }

    /// A store that keeps nothing.
    pub fn new() -> (store: WalletStore)
        ensures
            store.wf(),
            store@ == empty_wallet(),
    {
        WalletStore {
            key_file: None,
            names: NameTable::new(),
            dids: NameTable::new(),
            messages: RecordTable::new(),
            credentials: RecordTable::new(),
            presentations: RecordTable::new(),
        }
    }

    /// A store that keeps what was read from elsewhere, as from a directory:
    /// the key file and the records as they are, and the connections made
    /// anew one after the other, each line an alias with its DID.
    pub fn from_parts(
        key_file: Option<String>,
        connections: Vec<Entry>,
        messages: RecordTable,
        credentials: RecordTable,
        presentations: RecordTable,
    ) -> (store: WalletStore)
        requires
            messages.wf(),
            credentials.wf(),
            presentations.wf(),
        ensures
            store.wf(),
            store@ == replayed(
                WalletView {
                    key_file: text_in(key_file),
                    names: Map::empty(),
                    dids: Map::empty(),
                    messages: messages@,
                    credentials: credentials@,
                    presentations: presentations@,
                },
                connections@,
            ),
    {
        let mut store = WalletStore {
            key_file,
            names: NameTable::new(),
            dids: NameTable::new(),
            messages,
            credentials,
            presentations,
        };
        let ghost start = store@;
        let mut i: usize = 0;
        while i < connections.len()
            invariant
                i <= connections@.len(),
                store.wf(),
                store@ == replayed(start, connections@.take(i as int)),
            decreases connections@.len() - i,
        {
            let _ = store.link(connections[i].key.as_str(), connections[i].value.as_str());
            proof {
                let lines = connections@.take(i + 1);
                assert(lines.drop_last() =~= connections@.take(i as int));
                assert(lines.last() == connections@[i as int]);
            }
            i += 1;
        }
        assert(connections@.take(i as int) =~= connections@);
        store
    }

    /// The text of the key file, if there is one.
    pub fn key_file(&self) -> (text: Option<&String>)
        ensures
            match text {
                Some(t) => self@.key_file == Some(t@),
                None => self@.key_file is None,
            },
    {
        self.key_file.as_ref()
    }

    /// The connections by alias.
    pub fn names(&self) -> (table: &NameTable)
        requires
            self.wf(),
        ensures
            table.wf(),
            table@ == self@.names,
    {
        &self.names
    }

    /// The connections by DID.
    pub fn dids(&self) -> (table: &NameTable)
        requires
            self.wf(),
        ensures
            table.wf(),
            table@ == self@.dids,
    {
        &self.dids
    }

    /// The records of a shelf.
    pub fn shelf(&self, shelf: Shelf) -> (table: &RecordTable)
        requires
            self.wf(),
        ensures
            table.wf(),
            table@ == shelf_of(self@, shelf),
    {
        match shelf {
            Shelf::Messages => &self.messages,
            Shelf::Credentials => &self.credentials,
            Shelf::Presentations => &self.presentations,
        }
    }

    /// Writes the key file.
    pub(crate) fn set_key_file(&mut self, text: String)
        requires
            old(self).wf(),
        ensures
            final(self).wf(),
            final(self)@ == (WalletView { key_file: Some(text@), ..old(self)@ }),
    {
        self.key_file = Some(text);
    }

    /// Connects an alias and a DID, drops what either led to before, and
    /// hands back the DID that the alias led to and the alias that the DID
    /// led to.
    pub(crate) fn link(&mut self, alias: &str, did: &str) -> (previous: (Option<String>, Option<String>))
        requires
            old(self).wf(),
        ensures
            final(self).wf(),
            final(self)@ == connected(old(self)@, alias@, did@),
            match previous.0 {
                Some(v) => old(self)@.names.contains_key(alias@) && old(self)@.names[alias@] == v@,
                None => !old(self)@.names.contains_key(alias@),
            },
            match previous.1 {
                Some(v) => old(self)@.dids.contains_key(did@) && old(self)@.dids[did@] == v@,
                None => !old(self)@.dids.contains_key(did@),
            },
    {
        let ghost before = self@;
        let did_before = self.names.get(alias);
        let alias_before = self.dids.get(did);
        match &alias_before {
            Some(other) => {
                let _ = self.names.remove(other.as_str());
            },
            None => {},
        }
        match &did_before {
            Some(other) => {
                let _ = self.dids.remove(other.as_str());
            },
            None => {},
        }
        let _ = self.names.put(alias, did);
        let _ = self.dids.put(did, alias);
        proof {
            assert(self@.names == connected(before, alias@, did@).names);
            assert(self@.dids == connected(before, alias@, did@).dids);
            lemma_connected_mirrors(before, alias@, did@);
        }
        (did_before, alias_before)
    }

    /// Puts an envelope under an id on a shelf and hands back the envelope
    /// that stood there.
    pub(crate) fn put_record(&mut self, shelf: Shelf, id: u64, envelope: &str) -> (previous: Option<String>)
        requires
            old(self).wf(),
        ensures
            final(self).wf(),
            final(self)@ == kept_on(old(self)@, shelf, id, envelope@),
            match previous {
                Some(e) => shelf_of(old(self)@, shelf).contains_key(id) && shelf_of(old(self)@, shelf)[id] == e@,
                None => !shelf_of(old(self)@, shelf).contains_key(id),
            },
    {
        match shelf {
            Shelf::Messages => self.messages.put(id, envelope),
            Shelf::Credentials => self.credentials.put(id, envelope),
            Shelf::Presentations => self.presentations.put(id, envelope),
        }
    }
}

} // verus!
