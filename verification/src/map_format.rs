//! The byte form of the two maps that the records embed: a count of entries in
//! four little-endian bytes, then the entries in ascending order of key, each
//! as its key followed by its value. The bytes are written and read by the
//! `borsh` crate; this module states the format and proves that reading undoes
//! writing.

use crate::bytes::{
    lemma_u32_le_round_trip, lemma_u64_le_round_trip, u32_from_le, u32_le_bytes, u64_from_le,
    u64_le_bytes,
};
use crate::pubkey::Pubkey;
use crate::symbol::{is_utf8, MintProgram, TypeSymbol};
use crate::token_map::{records_of, TokenEntry, TokenRecord};
use borsh::BorshDeserialize;
use std::collections::BTreeMap;
use vstd::prelude::*;

verus! {

/// Number of keys of `map` below `below`.
pub open spec fn counter_count(map: Map<u8, u64>, below: nat) -> nat
    decreases below,
{
    if below == 0 {
        0
    } else {
        counter_count(map, (below - 1) as nat) + if map.contains_key((below - 1) as u8) {
            1nat
        } else {
            0nat
        }
    }
}

/// The entries of `map` with a key below `below`, in ascending order of key:
/// for each the key, one byte, and the counter, eight little-endian bytes.
pub open spec fn counter_entries_bytes(map: Map<u8, u64>, below: nat) -> Seq<u8>
    decreases below,
{
    if below == 0 {
        Seq::empty()
    } else {
        let key = (below - 1) as u8;
        counter_entries_bytes(map, (below - 1) as nat) + if map.contains_key(key) {
            seq![key] + u64_le_bytes(map[key])
        } else {
            Seq::empty()
        }
    }
}

/// The byte form of a map of withdrawal counters.
pub open spec fn counter_map_bytes(map: Map<u8, u64>) -> Seq<u8> {
    u32_le_bytes(counter_count(map, 256) as u32) + counter_entries_bytes(map, 256)
}

/// The map that the first `n` entries of nine bytes each stand for; of two
/// entries with one key the later one stays.
pub open spec fn counter_records(bytes: Seq<u8>, n: nat) -> Map<u8, u64>
    decreases n,
{
    if n == 0 {
        Map::empty()
    } else {
        let at = 9 * (n - 1);
        counter_records(bytes, (n - 1) as nat).insert(
            bytes[at],
            u64_from_le(bytes.subrange(at + 1, at + 9)) as u64,
        )
    }
}

/// The first `n` entries of nine bytes each, in the order in which they stand.
pub open spec fn counter_list(bytes: Seq<u8>, n: nat) -> Seq<(u8, u64)> {
    Seq::new(
        n,
        |i: int| (bytes[9 * i], u64_from_le(bytes.subrange(9 * i + 1, 9 * i + 9)) as u64),
    )
}

/// The entries that `bytes` are the byte form of, if they are one: a count and
/// exactly that many entries of nine bytes.
pub open spec fn counter_list_parse(bytes: Seq<u8>) -> Option<Seq<(u8, u64)>> {
    if bytes.len() >= 4 && bytes.len() - 4 == 9 * u32_from_le(bytes.subrange(0, 4)) {
        Some(counter_list(bytes.skip(4), u32_from_le(bytes.subrange(0, 4))))
    } else {
        None
    }
}

/// The map of withdrawal counters that `bytes` are the byte form of, if they
/// are one: a count and exactly that many entries of nine bytes.
pub open spec fn counter_map_parse(bytes: Seq<u8>) -> Option<Map<u8, u64>> {
    if bytes.len() >= 4 && bytes.len() - 4 == 9 * u32_from_le(bytes.subrange(0, 4)) {
        Some(counter_records(bytes.skip(4), u32_from_le(bytes.subrange(0, 4))))
    } else {
        None
    }
}

/// The byte form of one entry of the token map: the asset class, the length of
/// the symbol in four little-endian bytes, the symbol, the mint and the
/// custody account.
pub open spec fn token_record_bytes(record: TokenRecord) -> Seq<u8> {
    seq![record.key.0] + u32_le_bytes(record.key.1.len() as u32) + record.key.1 + record.value.0
        + record.value.1
}

/// The byte forms of the records of a list, one after the other.
pub open spec fn token_records_bytes(records: Seq<TokenRecord>) -> Seq<u8>
    decreases records.len(),
{
    if records.len() == 0 {
        Seq::empty()
    } else {
        token_record_bytes(records[0]) + token_records_bytes(records.drop_first())
    }
}

/// The byte form of a token map, given as its records in ascending order.
pub open spec fn token_map_bytes(records: Seq<TokenRecord>) -> Seq<u8> {
    u32_le_bytes(records.len() as u32) + token_records_bytes(records)
}

/// Number of bytes of the record at the front of `bytes`: sixty-nine and the
/// length of its symbol, which stands in the bytes one to four.
pub open spec fn front_record_len(bytes: Seq<u8>) -> int {
    69 + u32_from_le(bytes.subrange(1, 5)) as int
}

/// Whether a whole record stands at the front of `bytes`, its symbol valid
/// UTF-8.
pub open spec fn front_record_ok(bytes: Seq<u8>) -> bool {
    &&& bytes.len() >= 5
    &&& bytes.len() >= front_record_len(bytes)
    &&& is_utf8(bytes.subrange(5, front_record_len(bytes) - 64))
}

/// The record at the front of `bytes`.
pub open spec fn front_record(bytes: Seq<u8>) -> TokenRecord {
    let end = front_record_len(bytes);
    TokenRecord {
        key: (bytes[0], bytes.subrange(5, end - 64)),
        value: (bytes.subrange(end - 64, end - 32), bytes.subrange(end - 32, end)),
    }
}

/// The `n` records that `bytes` are the byte forms of, if they are that and
/// nothing more.
pub open spec fn token_records_parse(bytes: Seq<u8>, n: nat) -> Option<Seq<TokenRecord>>
    decreases n,
{
    if n == 0 {
        if bytes.len() == 0 {
            Some(Seq::empty())
        } else {
            None
        }
    } else if !front_record_ok(bytes) {
        None
    } else {
        match token_records_parse(bytes.skip(front_record_len(bytes)), (n - 1) as nat) {
            None => None,
            Some(rest) => Some(seq![front_record(bytes)] + rest),
        }
    }
}

/// The records, in the order in which they are written, that `bytes` are the
/// byte form of, if they are the byte form of a list of records.
pub open spec fn token_map_parse(bytes: Seq<u8>) -> Option<Seq<TokenRecord>> {
    if bytes.len() < 4 {
        None
    } else {
        token_records_parse(bytes.skip(4), u32_from_le(bytes.subrange(0, 4)))
    }
}

/// Whether a record is one that a token map can hold: its symbol is valid
/// UTF-8 and its two addresses have thirty-two bytes each.
pub open spec fn sound_record(record: TokenRecord) -> bool {
    &&& is_utf8(record.key.1)
    &&& record.value.0.len() == 32
    &&& record.value.1.len() == 32
}

/// Whether a record can be written: it is sound and the length of its symbol
/// fits four bytes.
pub open spec fn writable_record(record: TokenRecord) -> bool {
    &&& sound_record(record)
    &&& record.key.1.len() <= u32::MAX
}

/// Whether a list of records can be written.
pub open spec fn writable_records(records: Seq<TokenRecord>) -> bool {
    &&& records.len() <= u32::MAX
    &&& forall|i: int| 0 <= i < records.len() ==> writable_record(#[trigger] records[i])
}

/// The length of the byte form of a record with addresses of thirty-two
/// bytes.
pub proof fn lemma_token_record_len(record: TokenRecord)
    requires
        record.value.0.len() == 32,
        record.value.1.len() == 32,
    ensures
        token_record_bytes(record).len() == 69 + record.key.1.len(),
{
}

/// The byte forms of records with addresses of thirty-two bytes have at
/// least sixty-nine bytes for each record, and at least sixty-nine bytes and
/// the length of its symbol for any one of them.
pub proof fn lemma_token_bytes_bounds(records: Seq<TokenRecord>)
    requires
        forall|i: int|
            0 <= i < records.len() ==> (#[trigger] records[i]).value.0.len() == 32
                && records[i].value.1.len() == 32,
    ensures
        token_records_bytes(records).len() >= 69 * records.len(),
        forall|i: int|
            0 <= i < records.len() ==> token_records_bytes(records).len() >= 69 + (
            #[trigger] records[i]).key.1.len(),
    decreases records.len(),
{
    if records.len() > 0 {
        let rest = records.drop_first();
        assert forall|i: int| 0 <= i < rest.len() implies (#[trigger] rest[i]).value.0.len() == 32
            && rest[i].value.1.len() == 32 by {
            assert(rest[i] == records[i + 1]);
        }
        lemma_token_bytes_bounds(rest);
        assert(records[0].value.0.len() == 32);
        lemma_token_record_len(records[0]);
        assert forall|i: int| 0 <= i < records.len() implies token_records_bytes(records).len()
            >= 69 + (#[trigger] records[i]).key.1.len() by {
            if i > 0 {
                assert(rest[i - 1] == records[i]);
            }
        }
    }
}

/// The byte forms of the records from position `i` on are no longer than
/// those of all records.
pub proof fn lemma_token_suffix_len(records: Seq<TokenRecord>, i: int)
    requires
        0 <= i <= records.len(),
    ensures
        token_records_bytes(records.skip(i)).len() <= token_records_bytes(records).len(),
    decreases i,
{
    if i == 0 {
        assert(records.skip(0) =~= records);
    } else {
        lemma_token_suffix_len(records, i - 1);
        assert(records.skip(i - 1).drop_first() =~= records.skip(i));
    }
}

/// The byte form of the counters below `below` has nine bytes for each key.
pub proof fn lemma_counter_entries_len(map: Map<u8, u64>, below: nat)
    requires
        below <= 256,
    ensures
        counter_count(map, below) <= below,
        counter_entries_bytes(map, below).len() == 9 * counter_count(map, below),
    decreases below,
{
    if below > 0 {
        lemma_counter_entries_len(map, (below - 1) as nat);
    }
}

/// The byte form of a map of counters has four bytes and nine for each key.
pub proof fn lemma_counter_map_len(map: Map<u8, u64>)
    ensures
        counter_count(map, 256) <= 256,
        counter_map_bytes(map).len() == 4 + 9 * counter_count(map, 256),
{
    lemma_counter_entries_len(map, 256);
}

/// The first `n` entries of a byte string do not depend on what follows them.
proof fn lemma_counter_records_prefix(bytes: Seq<u8>, more: Seq<u8>, n: nat)
    requires
        9 * n <= bytes.len(),
    ensures
        counter_records(bytes + more, n) == counter_records(bytes, n),
    decreases n,
{
    if n > 0 {
        lemma_counter_records_prefix(bytes, more, (n - 1) as nat);
        let at = 9 * (n - 1);
        assert((bytes + more).subrange(at + 1, at + 9) =~= bytes.subrange(at + 1, at + 9));
        assert((bytes + more)[at] == bytes[at]);
    }
}

/// Reading the written counters below `below` gives the map with those keys.
proof fn lemma_counter_entries_round_trip(map: Map<u8, u64>, below: nat)
    requires
        below <= 256,
    ensures
        counter_records(counter_entries_bytes(map, below), counter_count(map, below)) == Map::new(
            |k: u8| k < below && map.contains_key(k),
            |k: u8| map[k],
        ),
    decreases below,
{
    let target = Map::new(|k: u8| k < below && map.contains_key(k), |k: u8| map[k]);
    if below == 0 {
        assert(counter_records(counter_entries_bytes(map, below), counter_count(map, below))
            =~= target);
    } else {
        let prev = (below - 1) as nat;
        let key = prev as u8;
        let front = counter_entries_bytes(map, prev);
        let n = counter_count(map, prev);
        lemma_counter_entries_round_trip(map, prev);
        lemma_counter_entries_len(map, prev);
        let before = Map::new(|k: u8| k < prev && map.contains_key(k), |k: u8| map[k]);
        if map.contains_key(key) {
            let entry = seq![key] + u64_le_bytes(map[key]);
            let all = front + entry;
            lemma_u64_le_round_trip(map[key]);
            lemma_counter_records_prefix(front, entry, n);
            assert(all.subrange(9 * n + 1 as int, 9 * n + 9 as int) =~= u64_le_bytes(map[key]));
            assert(all[(9 * n) as int] == key);
            assert(counter_records(all, n + 1) == before.insert(key, map[key]));
            assert(before.insert(key, map[key]) =~= target);
        } else {
            assert(front + Seq::<u8>::empty() =~= front);
            assert(before =~= target);
        }
    }
}

/// Reading the byte form of a map of counters gives the map.
pub proof fn lemma_counter_map_round_trip(map: Map<u8, u64>)
    ensures
        counter_map_parse(counter_map_bytes(map)) == Some(map),
{
    let count = counter_count(map, 256);
    let entries = counter_entries_bytes(map, 256);
    let bytes = counter_map_bytes(map);
    lemma_counter_entries_len(map, 256);
    lemma_counter_entries_round_trip(map, 256);
    lemma_u32_le_round_trip(count as u32);
    assert(bytes.subrange(0, 4) =~= u32_le_bytes(count as u32));
    assert(bytes.skip(4) =~= entries);
    assert(Map::new(|k: u8| k < 256 && map.contains_key(k), |k: u8| map[k]) =~= map);
}

/// Where the fields of a record stand in its byte form.
proof fn lemma_token_record_fields(record: TokenRecord)
    requires
        writable_record(record),
    ensures
        ({
            let head = token_record_bytes(record);
            let len = record.key.1.len() as int;
            &&& head.len() == 69 + len
            &&& head[0] == record.key.0
            &&& u32_from_le(head.subrange(1, 5)) == len
            &&& head.subrange(5, 5 + len) == record.key.1
            &&& head.subrange(5 + len, 5 + len + 32) == record.value.0
            &&& head.subrange(5 + len + 32, 5 + len + 64) == record.value.1
        }),
{
    let head = token_record_bytes(record);
    let len = record.key.1.len() as int;
    lemma_u32_le_round_trip(len as u32);
    assert(head.subrange(1, 5) =~= u32_le_bytes(len as u32));
    assert(head.subrange(5, 5 + len) =~= record.key.1);
    assert(head.subrange(5 + len, 5 + len + 32) =~= record.value.0);
    assert(head.subrange(5 + len + 32, 5 + len + 64) =~= record.value.1);
}

/// Reading one record from the front of its byte form and what follows.
proof fn lemma_token_record_front(record: TokenRecord, tail: Seq<u8>)
    requires
        writable_record(record),
    ensures
        front_record_ok(token_record_bytes(record) + tail),
        front_record_len(token_record_bytes(record) + tail) == token_record_bytes(record).len(),
        front_record(token_record_bytes(record) + tail) == record,
        (token_record_bytes(record) + tail).skip(token_record_bytes(record).len() as int) == tail,
{
    let head = token_record_bytes(record);
    let bytes = head + tail;
    let len = record.key.1.len() as int;
    lemma_token_record_fields(record);
    assert(bytes.subrange(1, 5) =~= head.subrange(1, 5));
    assert(bytes.subrange(5, 5 + len) =~= head.subrange(5, 5 + len));
    assert(bytes.subrange(5 + len, 5 + len + 32) =~= head.subrange(5 + len, 5 + len + 32));
    assert(bytes.subrange(5 + len + 32, 5 + len + 64) =~= head.subrange(
        5 + len + 32,
        5 + len + 64,
    ));
    assert(bytes.skip(5 + len + 64) =~= tail);
}

/// Reading one more record than what follows it holds.
proof fn lemma_token_records_step(
    first: TokenRecord,
    tail: Seq<u8>,
    rest: Seq<TokenRecord>,
    n: nat,
)
    requires
        writable_record(first),
        token_records_parse(tail, n) == Some(rest),
    ensures
        token_records_parse(token_record_bytes(first) + tail, n + 1) == Some(seq![first] + rest),
{
    let bytes = token_record_bytes(first) + tail;
    lemma_token_record_front(first, tail);
    assert(front_record_ok(bytes));
    assert(bytes.skip(front_record_len(bytes)) == tail);
    assert(front_record(bytes) == first);
    assert((n + 1 - 1) as nat == n);
}

/// Whether every record of a list can be written, told record by record from
/// the front.
spec fn each_writable(records: Seq<TokenRecord>) -> bool
    decreases records.len(),
{
    records.len() == 0 || (writable_record(records[0]) && each_writable(records.drop_first()))
}

/// A list whose records can all be written is one whose records can be
/// written one by one.
proof fn lemma_each_writable(records: Seq<TokenRecord>)
    requires
        forall|i: int| 0 <= i < records.len() ==> writable_record(#[trigger] records[i]),
    ensures
        each_writable(records),
    decreases records.len(),
{
    if records.len() > 0 {
        let rest = records.drop_first();
        assert forall|i: int| 0 <= i < rest.len() implies writable_record(#[trigger] rest[i]) by {
            assert(rest[i] == records[i + 1]);
        }
        lemma_each_writable(rest);
    }
}

/// A list is its first record followed by the others.
proof fn lemma_first_and_rest(records: Seq<TokenRecord>)
    requires
        records.len() > 0,
    ensures
        seq![records[0]] + records.drop_first() == records,
{
    assert(seq![records[0]] + records.drop_first() =~= records);
}

/// Reading the byte forms of `records` gives the records.
proof fn lemma_token_records_round_trip(records: Seq<TokenRecord>)
    requires
        each_writable(records),
    ensures
        token_records_parse(token_records_bytes(records), records.len()) == Some(records),
    decreases records.len(),
{
    if records.len() > 0 {
        let first = records[0];
        let rest = records.drop_first();
        lemma_token_records_round_trip(rest);
        lemma_token_records_step(first, token_records_bytes(rest), rest, rest.len());
        lemma_first_and_rest(records);
    } else {
        assert(records =~= Seq::<TokenRecord>::empty());
    }
}

/// The records read from bytes are as many as were asked for, and each is
/// sound.
pub proof fn lemma_token_records_parse_sound(bytes: Seq<u8>, n: nat)
    requires
        token_records_parse(bytes, n) is Some,
    ensures
        token_records_parse(bytes, n)->0.len() == n,
        forall|i: int| 0 <= i < n ==> sound_record(#[trigger] token_records_parse(bytes, n)->0[i]),
    decreases n,
{
    if n > 0 {
        let tail = bytes.skip(front_record_len(bytes));
        let rest = token_records_parse(tail, (n - 1) as nat)->0;
        let first = front_record(bytes);
        let all = token_records_parse(bytes, n)->0;
        lemma_token_records_parse_sound(tail, (n - 1) as nat);
        assert(all == seq![first] + rest);
        assert(sound_record(first));
        assert forall|i: int| 0 <= i < n implies sound_record(#[trigger] all[i]) by {
            if i > 0 {
                assert(all[i] == rest[i - 1]);
            }
        }
    }
}

/// The records read from the byte form of a list are sound.
pub proof fn lemma_token_map_parse_sound(bytes: Seq<u8>)
    requires
        token_map_parse(bytes) is Some,
    ensures
        forall|i: int|
            0 <= i < token_map_parse(bytes)->0.len() ==> sound_record(
                #[trigger] token_map_parse(bytes)->0[i],
            ),
{
    lemma_token_records_parse_sound(bytes.skip(4), u32_from_le(bytes.subrange(0, 4)));
}

/// Reading the byte form of a list of records gives the list.
pub proof fn lemma_token_map_round_trip(records: Seq<TokenRecord>)
    requires
        writable_records(records),
    ensures
        token_map_parse(token_map_bytes(records)) == Some(records),
{
    let bytes = token_map_bytes(records);
    lemma_each_writable(records);
    lemma_token_records_round_trip(records);
    lemma_u32_le_round_trip(records.len() as u32);
    assert(bytes.subrange(0, 4) =~= u32_le_bytes(records.len() as u32));
    assert(bytes.skip(4) =~= token_records_bytes(records));
}

/// The bytes that `borsh::to_vec` makes of a `BTreeMap<u8, u64>`: by the
/// format that borsh documents, the number of entries as a `u32`, then each
/// key and value in ascending order of key, integers little-endian. Writing
/// into a vector cannot fail and a map keyed by `u8` has at most 256 entries,
/// so borsh returns no error here; if it did, the result would be empty.
#[verifier::external_body]
pub(crate) fn counter_map_to_bytes(map: &BTreeMap<u8, u64>) -> (bytes: Vec<u8>)
    ensures
        bytes@ == counter_map_bytes(map@),
{
    match borsh::to_vec(map) {
        Ok(bytes) => bytes,
        Err(_) => Vec::new(),
    }
}

/// The entries that `try_from_slice` of borsh reads as a list of pairs of a
/// `u8` and a `u64`, in the order in which they stand: it takes a `u32` count
/// and that many entries of a key byte and a little-endian value, and fails
/// where bytes are missing or left over.
#[verifier::external_body]
pub(crate) fn counter_list_from_bytes(bytes: &[u8]) -> (list: Option<Vec<(u8, u64)>>)
    ensures
        match list {
            Some(entries) => counter_list_parse(bytes@) == Some(entries@),
            None => counter_list_parse(bytes@) is None,
        },
{
    Vec::<(u8, u64)>::try_from_slice(bytes).ok()
}

/// Reads a map of withdrawal counters from its byte form. Of two entries with
/// one key the later one stays.
pub fn read_counter_map(bytes: &[u8]) -> (map: Option<BTreeMap<u8, u64>>)
    ensures
        match map {
            Some(m) => counter_map_parse(bytes@) == Some(m@),
            None => counter_map_parse(bytes@) is None,
        },
{
    match counter_list_from_bytes(bytes) {
        None => None,
        Some(entries) => {
            let ghost body = bytes@.skip(4);
            let mut map: BTreeMap<u8, u64> = BTreeMap::new();
            let mut i: usize = 0;
            while i < entries.len()
                invariant
                    i <= entries.len(),
                    entries@ == counter_list(body, entries@.len()),
                    map@ == counter_records(body, i as nat),
                decreases entries.len() - i,
            {
                let (key, value) = entries[i];
                map.insert(key, value);
                i = i + 1;
            }
            Some(map)
        },
    }
}

/// The bytes that `borsh::to_vec` makes of a list of entries, each a pair of
/// `(u8, String)` and two arrays of thirty-two bytes: the number of entries as
/// a `u32`, then for each entry the asset class, the symbol as a `u32` length
/// and its UTF-8 bytes, and the two arrays as they are. borsh fails only where
/// a length does not fit a `u32`, which `requires` leaves out; if it did, the
/// result would be empty.
#[verifier::external_body]
pub(crate) fn token_entries_to_bytes(entries: &Vec<TokenEntry>) -> (bytes: Vec<u8>)
    requires
        writable_records(records_of(entries@)),
    ensures
        bytes@ == token_map_bytes(records_of(entries@)),
{
    let pairs: Vec<((u8, &str), (&[u8; 32], &[u8; 32]))> = entries.iter().map(
        |e| (
            (e.key.account_type, e.key.symbol.as_str()),
            (&e.value.mint.bytes, &e.value.program_token_account.bytes),
        ),
    ).collect();
    match borsh::to_vec(&pairs) {
        Ok(bytes) => bytes,
        Err(_) => Vec::new(),
    }
}

/// The entries that `try_from_slice` of borsh reads as a list of pairs of
/// `(u8, String)` and two arrays of thirty-two bytes, in the order in which
/// they stand: a `u32` count and that many entries, each symbol a `u32` length
/// and that many bytes of valid UTF-8. It fails where bytes are missing or
/// left over or a symbol is not UTF-8.
#[verifier::external_body]
pub(crate) fn token_entries_from_bytes(bytes: &[u8]) -> (entries: Option<Vec<TokenEntry>>)
    ensures
        match entries {
            Some(list) => token_map_parse(bytes@) == Some(records_of(list@)),
            None => token_map_parse(bytes@) is None,
        },
{
    let pairs = Vec::<((u8, String), ([u8; 32], [u8; 32]))>::try_from_slice(bytes).ok()?;
    Some(
        pairs.into_iter().map(
            |((account_type, symbol), (mint, account))| TokenEntry {
                key: TypeSymbol { account_type, symbol },
                value: MintProgram {
                    mint: Pubkey { bytes: mint },
                    program_token_account: Pubkey { bytes: account },
                },
            },
        ).collect(),
    )
}

} // verus!
