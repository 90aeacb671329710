//! The token registry's map from asset keys to mints and custody accounts,
//! held as a list of entries in strictly ascending order of key.

use crate::map_format::{
    lemma_token_record_len, lemma_token_suffix_len, sound_record, token_entries_from_bytes,
    token_entries_to_bytes, token_map_bytes, token_map_parse, token_records_bytes,
    writable_record, writable_records,
};
use crate::symbol::{
    key_less, lemma_key_order_total, lemma_key_order_transitive, lemma_symbol_is_utf8,
    MintProgram, TypeSymbol,
};
use vstd::prelude::*;

verus! {

/// One entry of the token map.
#[derive(Clone, Debug)]
pub struct TokenEntry {
    pub key: TypeSymbol,
    pub value: MintProgram,
}

/// What an entry of the token map holds, as plain values.
pub ghost struct TokenRecord {
    pub key: (u8, Seq<u8>),
    pub value: (Seq<u8>, Seq<u8>),
}

impl View for TokenEntry {
    type V = TokenRecord;

    open spec fn view(&self) -> TokenRecord {
        TokenRecord { key: self.key@, value: self.value@ }
    }
}

/// The records of a list of entries, in the same order.
pub open spec fn records_of(entries: Seq<TokenEntry>) -> Seq<TokenRecord> {
    Seq::new(entries.len(), |i: int| entries[i]@)
}

/// The map that a list of records stands for: each key maps to the value of
/// the last record that has it.
pub open spec fn records_map(records: Seq<TokenRecord>) -> Map<(u8, Seq<u8>), (Seq<u8>, Seq<u8>)>
    decreases records.len(),
{
    if records.len() == 0 {
        Map::empty()
    } else {
        records_map(records.drop_last()).insert(records.last().key, records.last().value)
    }
}

/// Whether the keys of a list of records ascend strictly.
pub open spec fn strictly_ascending(records: Seq<TokenRecord>) -> bool {
    forall|i: int, j: int|
        0 <= i < j < records.len() ==> key_less(#[trigger] records[i].key, #[trigger] records[j].key)
}

/// Number of records at the front of a list whose keys are less than `key`.
pub open spec fn rank(records: Seq<TokenRecord>, key: (u8, Seq<u8>)) -> nat
    decreases records.len(),
{
    if records.len() == 0 || !key_less(records[0].key, key) {
        0
    } else {
        1 + rank(records.drop_first(), key)
    }
}

/// An ascending list with `record` put in: in place of the record that has its
/// key, or else where its key belongs.
pub open spec fn insert_record(records: Seq<TokenRecord>, record: TokenRecord) -> Seq<TokenRecord> {
    let p = rank(records, record.key) as int;
    if p < records.len() && records[p].key == record.key {
        records.update(p, record)
    } else {
        records.insert(p, record)
    }
}

/// An ascending list without the record that has `key`.
pub open spec fn remove_key(records: Seq<TokenRecord>, key: (u8, Seq<u8>)) -> Seq<TokenRecord> {
    let p = rank(records, key) as int;
    if p < records.len() && records[p].key == key {
        records.remove(p)
    } else {
        records
    }
}

/// The ascending list that comes of putting the records of `wire` in, one
/// after the other: of two records with one key the later one stays.
pub open spec fn ordered(wire: Seq<TokenRecord>) -> Seq<TokenRecord>
    decreases wire.len(),
{
    if wire.len() == 0 {
        Seq::empty()
    } else {
        insert_record(ordered(wire.drop_last()), wire.last())
    }
}

/// The rank of a key is at most the length of the list, and it is the length
/// if every key of the list is less.
pub proof fn lemma_rank_bounds(records: Seq<TokenRecord>, key: (u8, Seq<u8>))
    ensures
        rank(records, key) <= records.len(),
        (forall|i: int| 0 <= i < records.len() ==> key_less(#[trigger] records[i].key, key))
            ==> rank(records, key) == records.len(),
    decreases records.len(),
{
    if records.len() > 0 {
        let rest = records.drop_first();
        lemma_rank_bounds(rest, key);
        if forall|i: int| 0 <= i < records.len() ==> key_less(#[trigger] records[i].key, key) {
            assert(key_less(records[0].key, key));
            assert forall|i: int| 0 <= i < rest.len() implies key_less(
                #[trigger] rest[i].key,
                key,
            ) by {
                assert(rest[i] == records[i + 1]);
            }
        }
    }
}

/// Putting the records of an ascending list in one after the other gives the
/// list itself.
pub proof fn lemma_ordered_of_ascending(records: Seq<TokenRecord>)
    requires
        strictly_ascending(records),
    ensures
        ordered(records) == records,
    decreases records.len(),
{
    if records.len() > 0 {
        let front = records.drop_last();
        let last = records.last();
        assert(strictly_ascending(front)) by {
            assert forall|a: int, b: int| 0 <= a < b < front.len() implies key_less(
                #[trigger] front[a].key,
                #[trigger] front[b].key,
            ) by {
                assert(front[a] == records[a] && front[b] == records[b]);
            }
        }
        lemma_ordered_of_ascending(front);
        assert forall|i: int| 0 <= i < front.len() implies key_less(
            #[trigger] front[i].key,
            last.key,
        ) by {
            assert(front[i] == records[i]);
            assert(key_less(records[i].key, records[records.len() - 1].key));
        }
        lemma_rank_bounds(front, last.key);
        assert(front.insert(front.len() as int, last) =~= records);
    } else {
        assert(records =~= Seq::<TokenRecord>::empty());
    }
}

/// A key is in the map of a list exactly if some record has it.
pub proof fn lemma_records_map_domain(records: Seq<TokenRecord>, key: (u8, Seq<u8>))
    ensures
        records_map(records).contains_key(key) <==> exists|i: int|
            0 <= i < records.len() && #[trigger] records[i].key == key,
    decreases records.len(),
{
    if records.len() > 0 {
        let front = records.drop_last();
        lemma_records_map_domain(front, key);
        if records_map(records).contains_key(key) {
            if records.last().key == key {
                assert(records[records.len() - 1].key == key);
            } else {
                let i = choose|i: int| 0 <= i < front.len() && #[trigger] front[i].key == key;
                assert(records[i].key == key);
            }
        }
        if exists|i: int| 0 <= i < records.len() && #[trigger] records[i].key == key {
            let i = choose|i: int| 0 <= i < records.len() && #[trigger] records[i].key == key;
            if i < records.len() - 1 {
                assert(front[i].key == key);
            }
        }
    }
}

/// In a list whose keys ascend strictly, each record's key maps to that
/// record's value.
pub proof fn lemma_records_map_value(records: Seq<TokenRecord>, i: int)
    requires
        strictly_ascending(records),
        0 <= i < records.len(),
    ensures
        records_map(records).contains_key(records[i].key),
        records_map(records)[records[i].key] == records[i].value,
    decreases records.len(),
{
    let front = records.drop_last();
    if i < records.len() - 1 {
        assert(strictly_ascending(front)) by {
            assert forall|a: int, b: int| 0 <= a < b < front.len() implies key_less(
                #[trigger] front[a].key,
                #[trigger] front[b].key,
            ) by {
                assert(front[a] == records[a] && front[b] == records[b]);
            }
        }
        lemma_records_map_value(front, i);
        assert(front[i] == records[i]);
        assert(key_less(records[i].key, records[records.len() - 1].key));
        lemma_key_order_total(records[i].key, records.last().key);
    }
}

/// The token map: asset keys with their mint and custody account, no key
/// twice, kept in ascending order of key.
#[derive(Debug)]
pub struct TokenMap {
    entries: Vec<TokenEntry>,
}

impl View for TokenMap {
    type V = Map<(u8, Seq<u8>), (Seq<u8>, Seq<u8>)>;

    /// The map from keys to values that the entries stand for.
    closed spec fn view(&self) -> Map<(u8, Seq<u8>), (Seq<u8>, Seq<u8>)> {
        records_map(self.records())
    }
}

impl TokenMap {
    /// The records of the map in the order in which they are kept and written.
    pub closed spec fn records(&self) -> Seq<TokenRecord> {
        records_of(self.entries@)
    }

    /// The keys ascend strictly, so no key occurs twice.
    #[verifier::type_invariant]
    pub closed spec fn wf(&self) -> bool {
        strictly_ascending(self.records())
    }

    /// The view of a map is the map of its records.
    pub proof fn lemma_view(&self)
        ensures
            self@ == records_map(self.records()),
    {
    }

    /// A map without entries.
    pub fn new() -> (map: TokenMap)
        ensures
            map@ == Map::<(u8, Seq<u8>), (Seq<u8>, Seq<u8>)>::empty(),
            map.records() == Seq::<TokenRecord>::empty(),
            map.wf(),
    {
        let map = TokenMap { entries: Vec::new() };
        assert(map.records() =~= Seq::<TokenRecord>::empty());
        map
    }

    /// The map that holds the given entries: of two entries with one key the
    /// later one stays.
    pub fn from_entries(entries: &Vec<TokenEntry>) -> (map: TokenMap)
        ensures
            map.records() == ordered(records_of(entries@)),
            map.wf(),
    {
        let mut map = TokenMap::new();
        let ghost wire = records_of(entries@);
        let mut i: usize = 0;
        assert(wire.take(0) =~= Seq::<TokenRecord>::empty());
        while i < entries.len()
            invariant
                i <= entries.len(),
                wire == records_of(entries@),
                map.records() == ordered(wire.take(i as int)),
            decreases entries.len() - i,
        {
            let entry = &entries[i];
            assert(wire.take(i + 1).drop_last() =~= wire.take(i as int));
            assert(wire.take(i + 1).last() == entry@);
            map.insert(entry.key.duplicate(), entry.value);
            i = i + 1;
        }
        assert(wire.take(i as int) =~= wire);
        proof {
            use_type_invariant(&map);
        }
        map
    }

    /// The byte form of the map, if it has at most `limit` bytes.
    pub fn encode(&self, limit: u32) -> (bytes: Option<Vec<u8>>)
        ensures
            match bytes {
                Some(b) => b@ == token_map_bytes(self.records()) && b@.len() <= limit,
                None => token_map_bytes(self.records()).len() > limit,
            },
    {
        let ghost records = self.records();
        let mut total: usize = 4;
        let mut i: usize = self.entries.len();
        assert(records.skip(i as int) =~= Seq::<TokenRecord>::empty());
        if limit < 4 {
            return None;
        }
        while i > 0
            invariant
                i <= self.entries.len(),
                records == self.records(),
                4 <= limit,
                total == 4 + token_records_bytes(records.skip(i as int)).len(),
                total <= limit,
                self.entries.len() - i <= total,
                forall|j: int| i <= j < records.len() ==> writable_record(#[trigger] records[j]),
            decreases i,
        {
            i = i - 1;
            let length = self.entries[i].key.symbol_bytes().len();
            proof {
                assert(records.skip(i as int).drop_first() =~= records.skip(i + 1));
                assert(records.skip(i as int)[0] == records[i as int]);
                lemma_symbol_is_utf8(self.entries@[i as int].key);
                lemma_token_record_len(records[i as int]);
            }
            if length > (limit as usize) - total || (limit as usize) - total - length < 69 {
                proof {
                    lemma_token_suffix_len(records, i as int);
                }
                return None;
            }
            total = total + 69 + length;
        }
        assert(records.skip(0) =~= records);
        let bytes = token_entries_to_bytes(&self.entries);
        Some(bytes)
    }

    /// The map whose byte form `bytes` are, if they are one. The entries may
    /// stand in any order; of two with one key the later one stays.
    pub fn decode(bytes: &[u8]) -> (map: Option<TokenMap>)
        ensures
            match map {
                Some(m) => token_map_parse(bytes@) is Some && m.records() == ordered(
                    token_map_parse(bytes@)->0,
                ),
                None => token_map_parse(bytes@) is None,
            },
    {
        match token_entries_from_bytes(bytes) {
            None => None,
            Some(entries) => Some(TokenMap::from_entries(&entries)),
        }
    }

    /// Number of entries.
    pub fn len(&self) -> (n: usize)
        ensures
            n == self.records().len(),
    {
        self.entries.len()
    }

    /// The entry at position `i` in ascending order of key.
    pub fn entry(&self, i: usize) -> (entry: &TokenEntry)
        requires
            i < self.records().len(),
        ensures
            entry@ == self.records()[i as int],
    {
        &self.entries[i]
    }

    /// Position of the first entry whose key is not less than `key`.
    fn position(&self, key: &TypeSymbol) -> (p: usize)
        ensures
            p == rank(self.records(), key@),
            p <= self.records().len(),
            forall|i: int| 0 <= i < p ==> key_less(#[trigger] self.records()[i].key, key@),
            p < self.records().len() ==> !key_less(self.records()[p as int].key, key@),
    {
        let mut p: usize = 0;
        let ghost records = self.records();
        assert(records.skip(0) =~= records);
        while p < self.entries.len() && self.entries[p].key.less_than(key)
            invariant
                p <= self.entries.len(),
                records == self.records(),
                forall|i: int| 0 <= i < p ==> key_less(#[trigger] records[i].key, key@),
                rank(records, key@) == p + rank(records.skip(p as int), key@),
            decreases self.entries.len() - p,
        {
            assert(records.skip(p as int).drop_first() =~= records.skip(p + 1));
            p = p + 1;
        }
        p
    }

    /// The value stored under `key`, if there is one.
    pub fn get(&self, key: &TypeSymbol) -> (value: Option<MintProgram>)
        ensures
            value is Some <==> self@.contains_key(key@),
            value is Some ==> value->0@ == self@[key@],
    {
        proof {
            use_type_invariant(self);
        }
        let p = self.position(key);
        let ghost records = self.records();
        if p < self.entries.len() && self.entries[p].key.same_as(key) {
            proof {
                lemma_records_map_value(records, p as int);
            }
            Some(self.entries[p].value)
        } else {
            proof {
                lemma_records_map_domain(records, key@);
                if self@.contains_key(key@) {
                    let i = choose|i: int| 0 <= i < records.len() && #[trigger] records[i].key == key@;
                    lemma_key_order_total(key@, key@);
                    if i > p {
                        lemma_key_order_total(records[p as int].key, key@);
                        lemma_key_order_total(key@, records[p as int].key);
                    }
                }
            }
            None
        }
    }

    /// Stores `value` under `key`, in place of the value that was there if the
    /// key was present.
    pub fn insert(&mut self, key: TypeSymbol, value: MintProgram)
        ensures
            final(self)@ == old(self)@.insert(key@, value@),
            final(self).records() == insert_record(
                old(self).records(),
                TokenRecord { key: key@, value: value@ },
            ),
            final(self).wf(),
    {
        proof {
            use_type_invariant(&*self);
        }
        let p = self.position(&key);
        let ghost before = self.records();
        let ghost record = TokenRecord { key: key@, value: value@ };
        let mut entries: Vec<TokenEntry> = Vec::new();
        if p < self.entries.len() && self.entries[p].key.same_as(&key) {
            assert(records_of(entries@) =~= Seq::<TokenRecord>::empty());
            core::mem::swap(&mut self.entries, &mut entries);
            entries[p] = TokenEntry { key, value };
            proof {
                assert(records_of(entries@) =~= before.update(p as int, record));
                lemma_update_keeps_order(before, p as int, record);
            }
            core::mem::swap(&mut self.entries, &mut entries);
            proof {
                lemma_update_map(before, p as int, record);
            }
        } else {
            proof {
                if p < before.len() {
                    lemma_key_order_total(before[p as int].key, record.key);
                }
                lemma_insert_keeps_order(before, p as int, record);
                lemma_insert_map(before, p as int, record);
            }
            assert(records_of(entries@) =~= Seq::<TokenRecord>::empty());
            core::mem::swap(&mut self.entries, &mut entries);
            entries.insert(p, TokenEntry { key, value });
            assert(records_of(entries@) =~= before.insert(p as int, record));
            core::mem::swap(&mut self.entries, &mut entries);
        }
    }

    /// Removes the entry stored under `key`, if there is one.
    pub fn remove(&mut self, key: &TypeSymbol)
        ensures
            final(self)@ == old(self)@.remove(key@),
            final(self).records() == remove_key(old(self).records(), key@),
            final(self).wf(),
    {
        proof {
            use_type_invariant(&*self);
        }
        let p = self.position(key);
        let ghost before = self.records();
        if p < self.entries.len() && self.entries[p].key.same_as(key) {
            proof {
                lemma_remove_keeps_order(before, p as int);
                lemma_remove_map(before, p as int);
            }
            let mut entries: Vec<TokenEntry> = Vec::new();
            assert(records_of(entries@) =~= Seq::<TokenRecord>::empty());
            core::mem::swap(&mut self.entries, &mut entries);
            entries.remove(p);
            assert(records_of(entries@) =~= before.remove(p as int));
            core::mem::swap(&mut self.entries, &mut entries);
        } else {
            proof {
                lemma_records_map_domain(before, key@);
                if self@.contains_key(key@) {
                    let i = choose|i: int| 0 <= i < before.len() && #[trigger] before[i].key == key@;
                    lemma_key_order_total(key@, key@);
                    if i > p {
                        lemma_key_order_total(before[p as int].key, key@);
                    }
                }
                assert(self@ =~= self@.remove(key@));
            }
        }
    }
}

/// Replacing a record by one with the same key keeps the keys ascending.
proof fn lemma_update_keeps_order(records: Seq<TokenRecord>, p: int, record: TokenRecord)
    requires
        strictly_ascending(records),
        0 <= p < records.len(),
        records[p].key == record.key,
    ensures
        strictly_ascending(records.update(p, record)),
{
    let after = records.update(p, record);
    assert forall|i: int, j: int| 0 <= i < j < after.len() implies key_less(
        #[trigger] after[i].key,
        #[trigger] after[j].key,
    ) by {
        assert(after[i].key == records[i].key && after[j].key == records[j].key);
    }
}

/// Replacing a record by one with the same key maps that key to the new value.
proof fn lemma_update_map(records: Seq<TokenRecord>, p: int, record: TokenRecord)
    requires
        strictly_ascending(records),
        0 <= p < records.len(),
        records[p].key == record.key,
    ensures
        records_map(records.update(p, record)) == records_map(records).insert(
            record.key,
            record.value,
        ),
{
    let after = records.update(p, record);
    lemma_update_keeps_order(records, p, record);
    let left = records_map(after);
    let right = records_map(records).insert(record.key, record.value);
    assert forall|k: (u8, Seq<u8>)| left.contains_key(k) <==> right.contains_key(k) by {
        lemma_records_map_domain(after, k);
        lemma_records_map_domain(records, k);
        if left.contains_key(k) {
            let i = choose|i: int| 0 <= i < after.len() && #[trigger] after[i].key == k;
            assert(records[i].key == k);
        }
        if records_map(records).contains_key(k) {
            let i = choose|i: int| 0 <= i < records.len() && #[trigger] records[i].key == k;
            assert(after[i].key == k);
        }
        if k == record.key {
            assert(after[p].key == k);
        }
    }
    assert forall|k: (u8, Seq<u8>)| left.contains_key(k) implies left[k] == right[k] by {
        lemma_records_map_domain(after, k);
        let i = choose|i: int| 0 <= i < after.len() && #[trigger] after[i].key == k;
        lemma_records_map_value(after, i);
        if i != p {
            lemma_records_map_value(records, i);
            lemma_key_order_total(records[i].key, records[p].key);
        }
    }
    assert(left =~= right);
}

/// Putting a record between the keys below it and the keys above it keeps
/// the keys ascending.
proof fn lemma_insert_keeps_order(records: Seq<TokenRecord>, p: int, record: TokenRecord)
    requires
        strictly_ascending(records),
        0 <= p <= records.len(),
        forall|i: int| 0 <= i < p ==> key_less(#[trigger] records[i].key, record.key),
        p < records.len() ==> key_less(record.key, records[p].key),
    ensures
        strictly_ascending(records.insert(p, record)),
{
    let after = records.insert(p, record);
    assert forall|i: int, j: int| 0 <= i < j < after.len() implies key_less(
        #[trigger] after[i].key,
        #[trigger] after[j].key,
    ) by {
        if j == p {
            assert(after[i] == records[i]);
        } else if i == p {
            assert(after[j] == records[j - 1]);
            if j - 1 > p {
                assert(key_less(records[p].key, records[j - 1].key));
                lemma_key_order_transitive(record.key, records[p].key, records[j - 1].key);
            }
        } else {
            let a = if i < p { i } else { i - 1 };
            let b = if j < p { j } else { j - 1 };
            assert(after[i] == records[a] && after[j] == records[b]);
        }
    }
}

/// Putting a record with a new key into an ascending list adds its key and
/// value to the map.
proof fn lemma_insert_map(records: Seq<TokenRecord>, p: int, record: TokenRecord)
    requires
        strictly_ascending(records),
        0 <= p <= records.len(),
        forall|i: int| 0 <= i < p ==> key_less(#[trigger] records[i].key, record.key),
        p < records.len() ==> key_less(record.key, records[p].key),
    ensures
        records_map(records.insert(p, record)) == records_map(records).insert(
            record.key,
            record.value,
        ),
{
    let after = records.insert(p, record);
    lemma_insert_keeps_order(records, p, record);
    let left = records_map(after);
    let right = records_map(records).insert(record.key, record.value);
    assert forall|k: (u8, Seq<u8>)| left.contains_key(k) <==> right.contains_key(k) by {
        lemma_records_map_domain(after, k);
        lemma_records_map_domain(records, k);
        if left.contains_key(k) {
            let i = choose|i: int| 0 <= i < after.len() && #[trigger] after[i].key == k;
            if i < p {
                assert(records[i].key == k);
            } else if i > p {
                assert(records[i - 1].key == k);
            }
        }
        if records_map(records).contains_key(k) {
            let i = choose|i: int| 0 <= i < records.len() && #[trigger] records[i].key == k;
            if i < p {
                assert(after[i].key == k);
            } else {
                assert(after[i + 1].key == k);
            }
        }
        if k == record.key {
            assert(after[p].key == k);
        }
    }
    assert forall|k: (u8, Seq<u8>)| left.contains_key(k) implies left[k] == right[k] by {
        lemma_records_map_domain(after, k);
        let i = choose|i: int| 0 <= i < after.len() && #[trigger] after[i].key == k;
        lemma_records_map_value(after, i);
        if i < p {
            lemma_records_map_value(records, i);
            lemma_key_order_total(records[i].key, record.key);
        } else if i > p {
            lemma_records_map_value(records, i - 1);
            assert(key_less(after[p].key, after[i].key));
            lemma_key_order_total(record.key, records[i - 1].key);
        }
    }
    assert(left =~= right);
}

/// Taking a record out of an ascending list keeps the keys ascending.
proof fn lemma_remove_keeps_order(records: Seq<TokenRecord>, p: int)
    requires
        strictly_ascending(records),
        0 <= p < records.len(),
    ensures
        strictly_ascending(records.remove(p)),
{
    let after = records.remove(p);
    assert forall|i: int, j: int| 0 <= i < j < after.len() implies key_less(
        #[trigger] after[i].key,
        #[trigger] after[j].key,
    ) by {
        let a = if i < p { i } else { i + 1 };
        let b = if j < p { j } else { j + 1 };
        assert(after[i] == records[a] && after[j] == records[b]);
    }
}

/// Taking a record out of an ascending list takes its key out of the map.
proof fn lemma_remove_map(records: Seq<TokenRecord>, p: int)
    requires
        strictly_ascending(records),
        0 <= p < records.len(),
    ensures
        records_map(records.remove(p)) == records_map(records).remove(records[p].key),
{
    let after = records.remove(p);
    lemma_remove_keeps_order(records, p);
    let left = records_map(after);
    let right = records_map(records).remove(records[p].key);
    assert forall|k: (u8, Seq<u8>)| left.contains_key(k) <==> right.contains_key(k) by {
        lemma_records_map_domain(after, k);
        lemma_records_map_domain(records, k);
        if left.contains_key(k) {
            let i = choose|i: int| 0 <= i < after.len() && #[trigger] after[i].key == k;
            let a = if i < p { i } else { i + 1 };
            assert(records[a].key == k);
            lemma_key_order_total(records[a].key, records[p].key);
            if a < p {
                assert(key_less(records[a].key, records[p].key));
            } else {
                assert(key_less(records[p].key, records[a].key));
            }
        }
        if right.contains_key(k) {
            let i = choose|i: int| 0 <= i < records.len() && #[trigger] records[i].key == k;
            if i < p {
                assert(after[i].key == k);
            } else {
                assert(after[i - 1].key == k);
            }
        }
    }
    assert forall|k: (u8, Seq<u8>)| left.contains_key(k) implies left[k] == right[k] by {
        lemma_records_map_domain(after, k);
        let i = choose|i: int| 0 <= i < after.len() && #[trigger] after[i].key == k;
        lemma_records_map_value(after, i);
        let a = if i < p { i } else { i + 1 };
        assert(after[i] == records[a]);
        lemma_records_map_value(records, a);
    }
    assert(left =~= right);
}

/// The records before the rank of a key have lesser keys, and the record at
/// the rank has none.
pub proof fn lemma_rank_splits(records: Seq<TokenRecord>, key: (u8, Seq<u8>))
    ensures
        rank(records, key) <= records.len(),
        forall|i: int| 0 <= i < rank(records, key) ==> key_less(#[trigger] records[i].key, key),
        rank(records, key) < records.len() ==> !key_less(
            records[rank(records, key) as int].key,
            key,
        ),
    decreases records.len(),
{
    if records.len() > 0 && key_less(records[0].key, key) {
        let rest = records.drop_first();
        lemma_rank_splits(rest, key);
        assert forall|i: int| 0 <= i < rank(records, key) implies key_less(
            #[trigger] records[i].key,
            key,
        ) by {
            if i > 0 {
                assert(rest[i - 1] == records[i]);
            }
        }
        if rank(records, key) < records.len() {
            assert(rest[rank(rest, key) as int] == records[rank(records, key) as int]);
        }
    }
}

/// Putting a record into an ascending list keeps the list ascending and maps
/// the record's key to its value, with every other key as it was.
pub proof fn lemma_insert_record(records: Seq<TokenRecord>, record: TokenRecord)
    requires
        strictly_ascending(records),
    ensures
        strictly_ascending(insert_record(records, record)),
        records_map(insert_record(records, record)) == records_map(records).insert(
            record.key,
            record.value,
        ),
{
    let p = rank(records, record.key) as int;
    lemma_rank_splits(records, record.key);
    if p < records.len() && records[p].key == record.key {
        lemma_update_keeps_order(records, p, record);
        lemma_update_map(records, p, record);
    } else {
        if p < records.len() {
            lemma_key_order_total(records[p].key, record.key);
        }
        lemma_insert_keeps_order(records, p, record);
        lemma_insert_map(records, p, record);
    }
}

/// Taking a key out of an ascending list keeps the list ascending and takes
/// the key out of the map, with every other key as it was.
pub proof fn lemma_remove_key(records: Seq<TokenRecord>, key: (u8, Seq<u8>))
    requires
        strictly_ascending(records),
    ensures
        strictly_ascending(remove_key(records, key)),
        records_map(remove_key(records, key)) == records_map(records).remove(key),
{
    let p = rank(records, key) as int;
    lemma_rank_splits(records, key);
    if p < records.len() && records[p].key == key {
        lemma_remove_keeps_order(records, p);
        lemma_remove_map(records, p);
    } else {
        lemma_records_map_domain(records, key);
        if records_map(records).contains_key(key) {
            let i = choose|i: int| 0 <= i < records.len() && #[trigger] records[i].key == key;
            lemma_key_order_total(key, key);
            if i > p {
                assert(key_less(records[p].key, records[i].key));
            }
        }
        assert(records_map(records) =~= records_map(records).remove(key));
    }
}

/// Putting records in order, one after the other, gives an ascending list
/// with the same map: each key with the value of the last record that has it.
pub proof fn lemma_ordered(wire: Seq<TokenRecord>)
    ensures
        strictly_ascending(ordered(wire)),
        records_map(ordered(wire)) == records_map(wire),
    decreases wire.len(),
{
    if wire.len() > 0 {
        lemma_ordered(wire.drop_last());
        lemma_insert_record(ordered(wire.drop_last()), wire.last());
    }
}

/// Every record of a list with a record put in is that record or one of the
/// list.
pub proof fn lemma_insert_record_members(records: Seq<TokenRecord>, record: TokenRecord, i: int)
    requires
        0 <= i < insert_record(records, record).len(),
    ensures
        insert_record(records, record)[i] == record || exists|j: int|
            0 <= j < records.len() && records[j] == insert_record(records, record)[i],
{
    let p = rank(records, record.key) as int;
    lemma_rank_splits(records, record.key);
    let after = insert_record(records, record);
    if p < records.len() && records[p].key == record.key {
        if i != p {
            assert(records[i] == after[i]);
        }
    } else {
        if i < p {
            assert(records[i] == after[i]);
        } else if i > p {
            assert(records[i - 1] == after[i]);
        }
    }
}

/// Every record of a list with a key taken out is one of the list.
pub proof fn lemma_remove_key_members(records: Seq<TokenRecord>, key: (u8, Seq<u8>), i: int)
    requires
        0 <= i < remove_key(records, key).len(),
    ensures
        exists|j: int| 0 <= j < records.len() && records[j] == remove_key(records, key)[i],
{
    let p = rank(records, key) as int;
    lemma_rank_splits(records, key);
    let after = remove_key(records, key);
    if p < records.len() && records[p].key == key {
        if i < p {
            assert(records[i] == after[i]);
        } else {
            assert(records[i + 1] == after[i]);
        }
    } else {
        assert(records[i] == after[i]);
    }
}

/// Putting sound records in order gives sound records.
pub proof fn lemma_ordered_sound(wire: Seq<TokenRecord>)
    requires
        forall|i: int| 0 <= i < wire.len() ==> sound_record(#[trigger] wire[i]),
    ensures
        forall|i: int| 0 <= i < ordered(wire).len() ==> sound_record(#[trigger] ordered(wire)[i]),
    decreases wire.len(),
{
    if wire.len() > 0 {
        let front = wire.drop_last();
        assert forall|i: int| 0 <= i < front.len() implies sound_record(#[trigger] front[i]) by {
            assert(front[i] == wire[i]);
        }
        lemma_ordered_sound(front);
        assert(sound_record(wire[wire.len() - 1]));
        assert forall|i: int| 0 <= i < ordered(wire).len() implies sound_record(
            #[trigger] ordered(wire)[i],
        ) by {
            lemma_insert_record_members(ordered(front), wire.last(), i);
        }
    }
}

} // verus!
