//! What the tooling reads from the ledger entries the network returns: the
//! wasm hash of a contract instance, and the size and expiry of watched
//! entries.

use vstd::prelude::*;
use stellar_xdr::{ContractExecutable, LedgerEntry, LedgerEntryData, LedgerKey as XdrKey, Limits, ReadXdr, ScVal, WriteXdr};
use crate::keeper::size_or_estimate;
use crate::rpc::{EntrySnapshot, WatchKey, label_for, spec_label_for};

verus! {

/// What a ledger entry holds, as far as the tooling reads it.
#[derive(Clone, Copy, Debug, PartialEq, Eq)]
pub struct EntryFacts {
    /// Whether the entry is a contract instance.
    pub is_instance: bool,
    /// The wasm hash of a contract instance that runs wasm.
    pub wasm_hash: Option<[u8; 32]>,
    /// The length of the entry's XDR encoding, where it encodes.
    pub encoded_len: Option<usize>,
}

/// What decoding a base64-XDR `LedgerEntry` gives: its facts, or the text of
/// the decoding error.
pub uninterp spec fn decoded_entry_facts(entry_xdr: Seq<char>) -> Result<EntryFacts, Seq<char>>;

/// `LedgerEntry::from_xdr_base64` without limits, then the entry's kind, the
/// wasm hash of a wasm contract instance, and the length of `to_xdr`; the
/// error is rendered with `Display`.
#[verifier::external_body]
fn entry_facts(entry_xdr: &str) -> (r: Result<EntryFacts, String>)
    ensures
        match r {
            Ok(f) => decoded_entry_facts(entry_xdr@) == Ok::<EntryFacts, Seq<char>>(f),
            Err(e) => decoded_entry_facts(entry_xdr@) matches Err(d) && d == e@,
        },
{
    let entry = LedgerEntry::from_xdr_base64(entry_xdr, Limits::none()).map_err(|e| e.to_string())?;
    let encoded_len = entry.to_xdr(Limits::none()).ok().map(|b| b.len());
    Ok(match entry.data {
        LedgerEntryData::ContractData(d) => match d.val {
            ScVal::ContractInstance(i) => match i.executable {
                ContractExecutable::Wasm(h) => EntryFacts { is_instance: true, wasm_hash: Some(h.0), encoded_len },
                _ => EntryFacts { is_instance: true, wasm_hash: None, encoded_len },
            },
            _ => EntryFacts { is_instance: false, wasm_hash: None, encoded_len },
        },
        _ => EntryFacts { is_instance: false, wasm_hash: None, encoded_len },
    })
}

/// The wasm hash the keeper reads from the entries returned for a
/// contract's instance key: that of the last contract instance among them
/// (`None` when it runs no wasm, or when none is an instance); the first
/// entry that does not decode is the error.
pub open spec fn spec_instance_wasm_hash(entries: Seq<Seq<char>>) -> Result<Option<[u8; 32]>, Seq<char>>
    decreases entries.len(),
{
    if entries.len() == 0 {
        Ok(None)
    } else {
        match spec_instance_wasm_hash(entries.drop_last()) {
            Err(e) => Err(e),
            Ok(h) => match decoded_entry_facts(entries.last()) {
                Err(e) => Err(e),
                Ok(f) => Ok(
                    if f.is_instance {
                        f.wasm_hash
                    } else {
                        h
                    },
                ),
            },
        }
    }
}

pub open spec fn strings_view(v: Seq<String>) -> Seq<Seq<char>> {
    v.map_values(|s: String| s@)
}

proof fn lemma_hash_error_sticks(entries: Seq<Seq<char>>, n: int)
    requires
        0 <= n <= entries.len(),
        spec_instance_wasm_hash(entries.take(n)) is Err,
    ensures
        spec_instance_wasm_hash(entries) == spec_instance_wasm_hash(entries.take(n)),
    decreases entries.len() - n,
{
    if n < entries.len() {
        assert(entries.take(n + 1).drop_last() =~= entries.take(n));
        lemma_hash_error_sticks(entries, n + 1);
    } else {
        assert(entries.take(n) =~= entries);
    }
}

/// The wasm hash of a contract, from the base64-XDR ledger entries returned
/// for its instance key.
pub fn instance_wasm_hash(entries: &Vec<String>) -> (r: Result<Option<[u8; 32]>, String>)
    ensures
        match spec_instance_wasm_hash(strings_view(entries@)) {
            Ok(h) => r == Ok::<Option<[u8; 32]>, String>(h),
            Err(e) => r matches Err(m) && m@ == e,
        },
{
    let ghost v = strings_view(entries@);
    let mut hash: Option<[u8; 32]> = None;
    let mut i: usize = 0;
    while i < entries.len()
        invariant
            i <= entries.len(),
            v == strings_view(entries@),
            spec_instance_wasm_hash(v.take(i as int)) == Ok::<Option<[u8; 32]>, Seq<char>>(hash),
        decreases entries.len() - i,
    {
        proof {
            assert(v.take(i + 1).drop_last() =~= v.take(i as int));
            assert(v.take(i + 1).last() == entries@[i as int]@);
        }
        match entry_facts(entries[i].as_str()) {
            Ok(f) => {
                if f.is_instance {
                    hash = f.wasm_hash;
                }
            },
            Err(e) => {
                proof {
                    lemma_hash_error_sticks(v, i + 1);
                }
                return Err(e);
            },
        }
        i = i + 1;
    }
    assert(v.take(entries.len() as int) =~= v);
    Ok(hash)
}

/// The wasm hash the restore planner reads from the entries returned for a
/// contract's instance key: the first wasm hash among them, in order; an
/// entry that does not decode before it is the error.
pub open spec fn spec_first_wasm_hash(entries: Seq<Seq<char>>) -> Result<Option<[u8; 32]>, Seq<char>>
    decreases entries.len(),
{
    if entries.len() == 0 {
        Ok(None)
    } else {
        match decoded_entry_facts(entries[0]) {
            Err(e) => Err(e),
            Ok(f) => if f.wasm_hash is Some {
                Ok(f.wasm_hash)
            } else {
                spec_first_wasm_hash(entries.drop_first())
            },
        }
    }
}

/// The first wasm hash among the base64-XDR ledger entries returned for a
/// contract's instance key.
pub fn first_wasm_hash(entries: &Vec<String>) -> (r: Result<Option<[u8; 32]>, String>)
    ensures
        match spec_first_wasm_hash(strings_view(entries@)) {
            Ok(h) => r == Ok::<Option<[u8; 32]>, String>(h),
            Err(e) => r matches Err(m) && m@ == e,
        },
{
    let ghost v = strings_view(entries@);
    let mut i: usize = 0;
    assert(v.skip(0) =~= v);
    while i < entries.len()
        invariant
            i <= entries.len(),
            v == strings_view(entries@),
            spec_first_wasm_hash(v) == spec_first_wasm_hash(v.skip(i as int)),
        decreases entries.len() - i,
    {
        proof {
            assert(v.skip(i as int).drop_first() =~= v.skip(i + 1));
            assert(v.skip(i as int)[0] == entries@[i as int]@);
        }
        match entry_facts(entries[i].as_str()) {
            Ok(f) => {
                if f.wasm_hash.is_some() {
                    return Ok(f.wasm_hash);
                }
            },
            Err(e) => {
                return Err(e);
            },
        }
        i = i + 1;
    }
    assert(v.skip(i as int).len() == 0);
    Ok(None)
}

/// One entry as the network returns it: its key, the entry, and the ledger
/// it lives until (absent for an entry that does not expire or is archived).
#[derive(Clone, Debug)]
pub struct FetchedEntry {
    pub key_xdr: String,
    pub entry_xdr: String,
    pub live_until_ledger: Option<u32>,
}

/// A snapshot as plain values: label, key, expiry ledger and size.
pub open spec fn snapshot_view(s: EntrySnapshot) -> (Seq<char>, Seq<char>, u32, u32) {
    (s.label@, s.key_xdr@, s.live_until_ledger, s.size_bytes)
}

pub open spec fn snapshots_view(v: Seq<EntrySnapshot>) -> Seq<(Seq<char>, Seq<char>, u32, u32)> {
    v.map_values(|s: EntrySnapshot| snapshot_view(s))
}

/// The size the keeper counts for an entry: its encoded length (taken
/// modulo 2^32), or 300 bytes where it does not encode.
pub open spec fn counted_size(f: EntryFacts) -> u32 {
    match f.encoded_len {
        Some(n) => n as u32,
        None => 300u32,
    }
}

/// What the keeper makes of the returned entries: a snapshot of each entry
/// that has an expiry ledger, in order, labelled after the watched key it
/// was requested under; the first of those whose entry does not decode is
/// the error.
pub open spec fn spec_snapshots(keys: Seq<WatchKey>, es: Seq<FetchedEntry>) -> Result<
    Seq<(Seq<char>, Seq<char>, u32, u32)>,
    Seq<char>,
>
    decreases es.len(),
{
    if es.len() == 0 {
        Ok(seq![])
    } else {
        match spec_snapshots(keys, es.drop_last()) {
            Err(e) => Err(e),
            Ok(v) => match es.last().live_until_ledger {
                None => Ok(v),
                Some(lu) => match decoded_entry_facts(es.last().entry_xdr@) {
                    Err(e) => Err(e),
                    Ok(f) => Ok(
                        v.push((spec_label_for(keys, es.last().key_xdr@), es.last().key_xdr@, lu, counted_size(f))),
                    ),
                },
            },
        }
    }
}

proof fn lemma_snapshots_error_sticks(keys: Seq<WatchKey>, es: Seq<FetchedEntry>, n: int)
    requires
        0 <= n <= es.len(),
        spec_snapshots(keys, es.take(n)) is Err,
    ensures
        spec_snapshots(keys, es) == spec_snapshots(keys, es.take(n)),
    decreases es.len() - n,
{
    if n < es.len() {
        assert(es.take(n + 1).drop_last() =~= es.take(n));
        lemma_snapshots_error_sticks(keys, es, n + 1);
    } else {
        assert(es.take(n) =~= es);
    }
}

/// The snapshots of the entries the network returned for `keys`: each entry
/// with an expiry ledger gives one, labelled after the watched key it was
/// requested under and sized by its encoding (300 bytes where it does not
/// encode).
pub fn snapshots_of(keys: &[WatchKey], entries: &Vec<FetchedEntry>) -> (r: Result<Vec<EntrySnapshot>, String>)
    ensures
        match spec_snapshots(keys@, entries@) {
            Ok(v) => r matches Ok(s) && snapshots_view(s@) == v,
            Err(e) => r matches Err(m) && m@ == e,
        },
{
    let mut out: Vec<EntrySnapshot> = Vec::new();
    let mut i: usize = 0;
    assert(snapshots_view(out@) =~= seq![]);
    while i < entries.len()
        invariant
            i <= entries.len(),
            spec_snapshots(keys@, entries@.take(i as int)) == Ok::<Seq<(Seq<char>, Seq<char>, u32, u32)>, Seq<char>>(
                snapshots_view(out@),
            ),
        decreases entries.len() - i,
    {
        proof {
            assert(entries@.take(i + 1).drop_last() =~= entries@.take(i as int));
            assert(entries@.take(i + 1).last() == entries@[i as int]);
        }
        let e = &entries[i];
        match e.live_until_ledger {
            None => {},
            Some(live_until_ledger) => {
                match entry_facts(e.entry_xdr.as_str()) {
                    Ok(f) => {
                        let s = EntrySnapshot {
                            label: label_for(keys, e.key_xdr.as_str()),
                            key_xdr: e.key_xdr.clone(),
                            live_until_ledger,
                            size_bytes: size_or_estimate(f.encoded_len),
                        };
                        let ghost before = snapshots_view(out@);
                        let ghost sv = snapshot_view(s);
                        out.push(s);
                        assert(snapshots_view(out@) =~= before.push(sv));
                    },
                    Err(m) => {
                        proof {
                            lemma_snapshots_error_sticks(keys@, entries@, i + 1);
                        }
                        return Err(m);
                    },
                }
            },
        }
        i = i + 1;
    }
    assert(entries@.take(entries.len() as int) =~= entries@);
    Ok(out)
}


/// What decoding a base64-XDR `LedgerKey` gives: the length of its XDR
/// encoding (where it encodes), or the text of the decoding error.
pub uninterp spec fn decoded_key_len(key_xdr: Seq<char>) -> Result<Option<usize>, Seq<char>>;

/// `LedgerKey::from_xdr_base64` without limits, then the length of
/// `to_xdr`; the error is rendered with `Display`.
#[verifier::external_body]
fn key_encoded_len(key_xdr: &str) -> (r: Result<Option<usize>, String>)
    ensures
        match r {
            Ok(n) => decoded_key_len(key_xdr@) == Ok::<Option<usize>, Seq<char>>(n),
            Err(e) => decoded_key_len(key_xdr@) matches Err(d) && d == e@,
        },
{
    let key = XdrKey::from_xdr_base64(key_xdr, Limits::none()).map_err(|e| e.to_string())?;
    Ok(key.to_xdr(Limits::none()).ok().map(|b| b.len()))
}

/// The size the keeper counts for an encoded length: the length (taken
/// modulo 2^32), or 300 bytes where it does not encode.
pub open spec fn counted_len(n: Option<usize>) -> u32 {
    match n {
        Some(x) => x as u32,
        None => 300u32,
    }
}

/// The sizes the keeper counts for the keys it extends, in order; the first
/// key that does not decode is the error.
pub open spec fn spec_key_sizes(keys: Seq<Seq<char>>) -> Result<Seq<u32>, Seq<char>>
    decreases keys.len(),
{
    if keys.len() == 0 {
        Ok(seq![])
    } else {
        match spec_key_sizes(keys.drop_last()) {
            Err(e) => Err(e),
            Ok(v) => match decoded_key_len(keys.last()) {
                Err(e) => Err(e),
                Ok(n) => Ok(v.push(counted_len(n))),
            },
        }
    }
}

proof fn lemma_sizes_error_sticks(keys: Seq<Seq<char>>, n: int)
    requires
        0 <= n <= keys.len(),
        spec_key_sizes(keys.take(n)) is Err,
    ensures
        spec_key_sizes(keys) == spec_key_sizes(keys.take(n)),
    decreases keys.len() - n,
{
    if n < keys.len() {
        assert(keys.take(n + 1).drop_last() =~= keys.take(n));
        lemma_sizes_error_sticks(keys, n + 1);
    } else {
        assert(keys.take(n) =~= keys);
    }
}

/// The sizes of the base64-XDR ledger keys the keeper extends.
pub fn key_sizes(keys: &Vec<String>) -> (r: Result<Vec<u32>, String>)
    ensures
        match spec_key_sizes(strings_view(keys@)) {
            Ok(v) => r matches Ok(s) && s@ == v,
            Err(e) => r matches Err(m) && m@ == e,
        },
{
    let ghost ks = strings_view(keys@);
    let mut out: Vec<u32> = Vec::new();
    let mut i: usize = 0;
    while i < keys.len()
        invariant
            i <= keys.len(),
            ks == strings_view(keys@),
            spec_key_sizes(ks.take(i as int)) == Ok::<Seq<u32>, Seq<char>>(out@),
        decreases keys.len() - i,
    {
        proof {
            assert(ks.take(i + 1).drop_last() =~= ks.take(i as int));
            assert(ks.take(i + 1).last() == keys@[i as int]@);
        }
        match key_encoded_len(keys[i].as_str()) {
            Ok(n) => {
                out.push(size_or_estimate(n));
            },
            Err(e) => {
                proof {
                    lemma_sizes_error_sticks(ks, i + 1);
                }
                return Err(e);
            },
        }
        i = i + 1;
    }
    assert(ks.take(keys.len() as int) =~= ks);
    Ok(out)
}

} // verus!
