//! The values exchanged between the rent keeper and the Stellar network.

use vstd::prelude::*;
use crate::text::{str_eq, concat};

verus! {

/// A ledger key being watched, with a stable label for metrics.
#[derive(Clone, Debug, PartialEq, Eq)]
pub struct WatchKey {
    /// Human-readable label (e.g. `instance`, `code`, `data:0`).
    pub label: String,
    /// Base64-XDR `LedgerKey`.
    pub key_xdr: String,
}

/// A snapshot of one watched ledger entry.
#[derive(Clone, Debug, PartialEq, Eq)]
pub struct EntrySnapshot {
    /// The label of the watched key.
    pub label: String,
    /// Base64-XDR `LedgerKey` of the entry.
    pub key_xdr: String,
    /// `live_until_ledger` of the entry.
    pub live_until_ledger: u32,
    /// Serialized size in bytes.
    pub size_bytes: u32,
}

/// Result of an extension submission.
#[derive(Clone, Debug, PartialEq, Eq)]
pub enum ExtendOutcome {
    /// Transaction accepted by the network (hash hex).
    Submitted { tx_hash: String },
    /// Nothing was extended.
    NoOp,
}

/// The label of the last watched key whose XDR is `key_xdr`, or `"entry"`
/// when no watched key matches.
pub open spec fn spec_label_for(keys: Seq<WatchKey>, key_xdr: Seq<char>) -> Seq<char>
    decreases keys.len(),
{
    if keys.len() == 0 {
        "entry"@
    } else if keys.last().key_xdr@ == key_xdr {
        keys.last().label@
    } else {
        spec_label_for(keys.drop_last(), key_xdr)
    }
}

/// The metrics label of a fetched entry: the label of the watched key it was
/// requested under (the last one, when a key is watched twice), or `entry`.
pub fn label_for(keys: &[WatchKey], key_xdr: &str) -> (r: String)
    ensures
        r@ == spec_label_for(keys@, key_xdr@),
{
    let mut i = keys.len();
    assert(keys@.take(i as int) =~= keys@);
    while i > 0
        invariant
            i <= keys.len(),
            spec_label_for(keys@, key_xdr@) == spec_label_for(keys@.take(i as int), key_xdr@),
        decreases i,
    {
        assert(keys@.take(i as int).drop_last() =~= keys@.take(i - 1));
        if str_eq(keys[i - 1].key_xdr.as_str(), key_xdr) {
            return keys[i - 1].label.clone();
        }
        i = i - 1;
    }
    String::from_str("entry")
}

/// The metrics outcome label of one extension submission.
pub open spec fn outcome_name(o: Result<ExtendOutcome, String>) -> Seq<char> {
    match o {
        Ok(ExtendOutcome::Submitted { .. }) => "submitted"@,
        Ok(ExtendOutcome::NoOp) => "noop"@,
        Err(_) => "error"@,
    }
}

/// The metrics outcome label of one extension submission
/// (`submitted`, `noop` or `error`).
pub fn outcome_label(o: &Result<ExtendOutcome, String>) -> (r: &'static str)
    ensures
        r@ == outcome_name(*o),
{
    match o {
        Ok(ExtendOutcome::Submitted { .. }) => "submitted",
        Ok(ExtendOutcome::NoOp) => "noop",
        Err(_) => "error",
    }
}

/// The error a failed RPC step reports, prefixed with what failed.
pub fn step_error(step: &str, error: &str) -> (r: String)
    ensures
        r@ == step@ + ": "@ + error@,
{
    let s = concat(step, ": ");
    s.concat(error)
}

} // verus!
