//! The restore planner's decisions: which ledger entries are candidates for
//! restoration, which of them the network reports as archived, what the
//! restore transaction pays, and how its inputs are decoded.

use vstd::prelude::*;
use vstd::string::StringSliceAdditionalSpecFns;
use crate::keys::{
    AccountId, LedgerKey, account_from_secret, contract_code_key, contract_instance_key,
    decode_account_id, encode_ledger_key, ledger_key_xdr, account_id_of, secret_account,
};
use crate::text::{concat, concat3, contains_str, decimal, str_eq, u64_to_string};

verus! {

/// A ledger entry the planner may need to restore, with a stable label.
#[derive(Clone, Debug, PartialEq, Eq)]
pub struct Candidate {
    /// Human-readable label (e.g. `instance`, `code`, `data:0`).
    pub label: String,
    /// Base64-XDR `LedgerKey`.
    pub key_xdr: String,
}

/// A candidate as a pair of its label and its key.
pub open spec fn candidate_view(c: Candidate) -> (Seq<char>, Seq<char>) {
    (c.label@, c.key_xdr@)
}

pub open spec fn candidates_view(cs: Seq<Candidate>) -> Seq<(Seq<char>, Seq<char>)> {
    cs.map_values(|c: Candidate| candidate_view(c))
}

/// The label of the `i`-th explicit data key: `data:<i>`.
pub open spec fn data_label_text(i: nat) -> Seq<char> {
    "data:"@ + decimal(i)
}

/// The label of the `i`-th explicit data key.
pub fn data_label(i: usize) -> (r: String)
    ensures
        r@ == data_label_text(i as nat),
{
    let n = u64_to_string(i as u64);
    let r = concat("data:", n.as_str());
    proof {
        reveal_strlit("data:");
    }
    r
}

/// The labelled keys of a contract: its instance, its code when the wasm
/// hash is known, then each explicit data key labelled by its position.
pub open spec fn labelled_keys(
    instance_xdr: Seq<char>,
    code_xdr: Option<Seq<char>>,
    data_keys: Seq<Seq<char>>,
) -> Seq<(Seq<char>, Seq<char>)> {
    let head = match code_xdr {
        Some(c) => seq![("instance"@, instance_xdr), ("code"@, c)],
        None => seq![("instance"@, instance_xdr)],
    };
    head + Seq::new(data_keys.len(), |i: int| (data_label_text(i as nat), data_keys[i]))
}

/// The candidates of `contract_id`, or the first key-encoding error.
pub open spec fn candidate_keys(
    contract_id: [u8; 32],
    data_keys: Seq<Seq<char>>,
    code_hash: Option<[u8; 32]>,
) -> Result<Seq<(Seq<char>, Seq<char>)>, Seq<char>> {
    match ledger_key_xdr(LedgerKey::ContractInstance(contract_id)) {
        Err(e) => Err(e),
        Ok(instance) => match code_hash {
            None => Ok(labelled_keys(instance, None, data_keys)),
            Some(h) => match ledger_key_xdr(LedgerKey::ContractCode(h)) {
                Err(e) => Err(e),
                Ok(code) => Ok(labelled_keys(instance, Some(code), data_keys)),
            },
        },
    }
}

fn push_data_candidates(out: &mut Vec<Candidate>, data_keys: &Vec<String>)
    requires
        old(out).len() + data_keys.len() <= usize::MAX,
    ensures
        candidates_view(final(out)@) == candidates_view(old(out)@) + Seq::new(
            data_keys.len() as nat,
            |i: int| (data_label_text(i as nat), data_keys@[i]@),
        ),
{
    let ghost start = candidates_view(out@);
    let mut i: usize = 0;
    while i < data_keys.len()
        invariant
            i <= data_keys.len(),
            candidates_view(out@) == start + Seq::new(
                i as nat,
                |j: int| (data_label_text(j as nat), data_keys@[j]@),
            ),
        decreases data_keys.len() - i,
    {
        let label = data_label(i);
        let key_xdr = data_keys[i].clone();
        let ghost before = out@;
        let c = Candidate { label, key_xdr };
        out.push(c);
        proof {
            assert(candidates_view(out@) =~= candidates_view(before).push(candidate_view(c)));
            assert(candidates_view(out@) =~= start + Seq::new(
                (i + 1) as nat,
                |j: int| (data_label_text(j as nat), data_keys@[j]@),
            ));
        }
        i = i + 1;
    }
}

/// The entries to consider restoring for a contract: its instance entry,
/// its code entry when the wasm hash is known, and each explicit data key
/// (base64 XDR) labelled `data:<i>`.
pub fn restore_candidates(
    contract_id: [u8; 32],
    data_keys: &Vec<String>,
    code_hash: Option<[u8; 32]>,
) -> (r: Result<Vec<Candidate>, String>)
    requires
        data_keys.len() + 2 <= usize::MAX,
    ensures
        match candidate_keys(contract_id, data_keys.deep_view(), code_hash) {
            Ok(cs) => r is Ok && candidates_view(r->Ok_0@) == cs,
            Err(e) => r is Err && r->Err_0@ == e,
        },
{
    let instance_xdr = encode_ledger_key(&contract_instance_key(contract_id))?;
    let mut out: Vec<Candidate> = Vec::new();
    out.push(Candidate { label: String::from_str("instance"), key_xdr: instance_xdr });
    match code_hash {
        Some(h) => {
            let code_xdr = encode_ledger_key(&contract_code_key(h))?;
            out.push(Candidate { label: String::from_str("code"), key_xdr: code_xdr });
        },
        None => {},
    }
    proof {
        reveal_strlit("instance");
        reveal_strlit("code");
    }
    let ghost head = candidates_view(out@);
    push_data_candidates(&mut out, data_keys);
    proof {
        let data = data_keys.deep_view();
        assert(Seq::new(data_keys.len() as nat, |i: int| (data_label_text(i as nat), data_keys@[i]@))
            =~= Seq::new(data.len(), |i: int| (data_label_text(i as nat), data[i])));
    }
    Ok(out)
}

/// Whether a candidate list holds the contract's code entry.
pub fn has_code_candidate(candidates: &Vec<Candidate>) -> (r: bool)
    ensures
        r == (exists|i: int| 0 <= i < candidates.len() && #[trigger] candidates@[i].label@ == "code"@),
{
    let mut i: usize = 0;
    while i < candidates.len()
        invariant
            i <= candidates.len(),
            forall|j: int| 0 <= j < i ==> #[trigger] candidates@[j].label@ != "code"@,
        decreases candidates.len() - i,
    {
        if str_eq(candidates[i].label.as_str(), "code") {
            return true;
        }
        i = i + 1;
    }
    false
}

/// The candidates whose key is among `archived`, in candidate order.
pub open spec fn archived_subset(cs: Seq<Candidate>, archived: Seq<Seq<char>>) -> Seq<Candidate>
    decreases cs.len(),
{
    if cs.len() == 0 {
        Seq::empty()
    } else {
        let rest = archived_subset(cs.drop_last(), archived);
        if archived.contains(cs.last().key_xdr@) {
            rest.push(cs.last())
        } else {
            rest
        }
    }
}

/// Keeps only the candidates whose key appears in the simulation's
/// read-write footprint (the entries the network says are archived), in
/// candidate order.
pub fn select_archived(candidates: &Vec<Candidate>, archived_keys: &Vec<String>) -> (r: Vec<
    Candidate,
>)
    ensures
        candidates_view(r@) == candidates_view(archived_subset(candidates@, archived_keys.deep_view())),
{
    let mut out: Vec<Candidate> = Vec::new();
    let mut i: usize = 0;
    while i < candidates.len()
        invariant
            i <= candidates.len(),
            candidates_view(out@) == candidates_view(
                archived_subset(candidates@.take(i as int), archived_keys.deep_view()),
            ),
        decreases candidates.len() - i,
    {
        proof {
            assert(candidates@.take(i + 1).drop_last() =~= candidates@.take(i as int));
            assert(candidates@.take(i + 1).last() == candidates@[i as int]);
        }
        let c = &candidates[i];
        let keep = contains_str(archived_keys, c.key_xdr.as_str());
        proof {
            let ks = archived_keys.deep_view();
            if keep {
                let k = choose|k: int| 0 <= k < archived_keys.len() && #[trigger] archived_keys@[k]@
                    == c.key_xdr@;
                assert(ks[k] == c.key_xdr@);
            } else {
                assert forall|k: int| 0 <= k < ks.len() implies ks[k] != c.key_xdr@ by {
                    assert(ks[k] == archived_keys@[k]@);
                }
            }
        }
        if keep {
            let ghost before = out@;
            out.push(Candidate { label: c.label.clone(), key_xdr: c.key_xdr.clone() });
            proof {
                assert(candidates_view(out@) =~= candidates_view(before).push(candidate_view(*c)));
                let sub = archived_subset(candidates@.take(i as int), archived_keys.deep_view());
                assert(candidates_view(sub.push(*c)) =~= candidates_view(sub).push(candidate_view(*c)));
            }
        }
        i = i + 1;
    }
    proof {
        assert(candidates@.take(candidates.len() as int) =~= candidates@);
    }
    out
}

/// Every archived candidate is one of the candidates, and a candidate is
/// reported archived exactly when its key is in the archived footprint.
pub proof fn lemma_archived_subset_is_a_filter(cs: Seq<Candidate>, archived: Seq<Seq<char>>)
    ensures
        forall|j: int|
            0 <= j < archived_subset(cs, archived).len() ==> cs.contains(
                #[trigger] archived_subset(cs, archived)[j],
            ) && archived.contains(archived_subset(cs, archived)[j].key_xdr@),
        forall|j: int|
            0 <= j < cs.len() && archived.contains(#[trigger] cs[j].key_xdr@) ==> archived_subset(
                cs,
                archived,
            ).contains(cs[j]),
        archived_subset(cs, archived).len() <= cs.len(),
    decreases cs.len(),
{
    if cs.len() > 0 {
        let rest = cs.drop_last();
        lemma_archived_subset_is_a_filter(rest, archived);
        let sub = archived_subset(rest, archived);
        assert forall|j: int|
            0 <= j < archived_subset(cs, archived).len() implies cs.contains(
            #[trigger] archived_subset(cs, archived)[j],
        ) && archived.contains(archived_subset(cs, archived)[j].key_xdr@) by {
            if j < sub.len() {
                let x = sub[j];
                let k = choose|k: int| 0 <= k < rest.len() && rest[k] == x;
                assert(cs[k] == x);
            } else {
                assert(cs[cs.len() - 1] == cs.last());
            }
        }
        assert forall|j: int|
            0 <= j < cs.len() && archived.contains(#[trigger] cs[j].key_xdr@) implies archived_subset(
            cs,
            archived,
        ).contains(cs[j]) by {
            if j < cs.len() - 1 {
                assert(rest[j] == cs[j]);
                let k = choose|k: int| 0 <= k < sub.len() && sub[k] == rest[j];
                assert(archived_subset(cs, archived)[k] == cs[j]);
            } else {
                let full = archived_subset(cs, archived);
                assert(full[full.len() - 1] == cs[j]);
            }
        }
    }
}

/// The fee of a Soroban transaction, the inclusion fee (100 stroops) plus
/// the simulated resource fee, saturated to a `u32`; and the resource fee
/// carried in the transaction data, saturated to an `i64`.
pub open spec fn soroban_fees(min_resource_fee: u64) -> (u32, i64) {
    (
        if min_resource_fee + 100 > u32::MAX {
            u32::MAX
        } else {
            (min_resource_fee + 100) as u32
        },
        if min_resource_fee > i64::MAX {
            i64::MAX
        } else {
            min_resource_fee as i64
        },
    )
}

/// The sequence number of the next transaction of an account whose current
/// sequence number is `current`: one past it, as the network requires of a
/// transaction that is ready to sign.
pub fn next_sequence(current: i64) -> (r: i64)
    requires
        current < i64::MAX,
    ensures
        r == current + 1,
{
    current + 1
}

/// The transaction fee and the resource fee for a simulated resource fee.
pub fn transaction_fees(min_resource_fee: u64) -> (r: (u32, i64))
    requires
        min_resource_fee + 100 <= u64::MAX,
    ensures
        r == soroban_fees(min_resource_fee),
{
    let total = min_resource_fee + 100;
    let fee: u32 = if total > 4_294_967_295u64 {
        4_294_967_295u32
    } else {
        total as u32
    };
    let resource_fee: i64 = if min_resource_fee > 9_223_372_036_854_775_807u64 {
        9_223_372_036_854_775_807i64
    } else {
        min_resource_fee as i64
    };
    (fee, resource_fee)
}

/// The transaction fee always covers the inclusion fee, and covers the whole
/// resource fee unless it saturates.
pub proof fn lemma_fee_covers_resources(min_resource_fee: u64)
    ensures
        soroban_fees(min_resource_fee).0 >= 100 || min_resource_fee + 100 > u32::MAX,
        soroban_fees(min_resource_fee).0 == min_resource_fee + 100 || soroban_fees(
            min_resource_fee,
        ).0 == u32::MAX,
        soroban_fees(min_resource_fee).1 as int <= min_resource_fee,
{
}


/// The value of an ASCII hexadecimal digit.
pub open spec fn hex_digit(b: u8) -> Option<u8> {
    if 48 <= b <= 57 {
        Some((b - 48) as u8)
    } else if 97 <= b <= 102 {
        Some((b - 87) as u8)
    } else if 65 <= b <= 70 {
        Some((b - 55) as u8)
    } else {
        None
    }
}

/// The byte two hexadecimal digits denote, high digit first.
pub open spec fn hex_pair(b0: u8, b1: u8) -> Option<u8> {
    match (hex_digit(b0), hex_digit(b1)) {
        (Some(h), Some(l)) => Some((16 * h + l) as u8),
        _ => None,
    }
}

/// The value of the `i`-th two-byte group of `bytes`.
pub open spec fn pair_at(bytes: Seq<u8>, i: int) -> Option<u8> {
    hex_pair(bytes[2 * i], bytes[2 * i + 1])
}

/// Whether the first `n` two-byte groups of `bytes` are hexadecimal.
pub open spec fn pairs_ok_below(bytes: Seq<u8>, n: int) -> bool {
    forall|j: int| 0 <= j < n ==> (#[trigger] pair_at(bytes, j)) is Some
}

pub open spec fn hex_length_message(len: nat) -> Seq<char> {
    "expected 64 hex characters, got "@ + decimal(len)
}

pub open spec fn invalid_hex_message() -> Seq<char> {
    "invalid hex in wasm hash: invalid digit found in string"@
}

/// The 32 bytes a 64-character hexadecimal text denotes, or the error.
pub open spec fn hex32(bytes: Seq<u8>) -> Result<Seq<u8>, Seq<char>> {
    if bytes.len() != 64 {
        Err(hex_length_message(bytes.len()))
    } else if pairs_ok_below(bytes, 32) {
        Ok(Seq::new(32, |i: int| pair_at(bytes, i)->Some_0))
    } else {
        Err(invalid_hex_message())
    }
}

fn hex_digit_of(b: u8) -> (r: Option<u8>)
    ensures
        r == hex_digit(b),
{
    if 48 <= b && b <= 57 {
        Some(b - 48)
    } else if 97 <= b && b <= 102 {
        Some(b - 87)
    } else if 65 <= b && b <= 70 {
        Some(b - 55)
    } else {
        None
    }
}

fn hex_pair_of(b0: u8, b1: u8) -> (r: Option<u8>)
    ensures
        r == hex_pair(b0, b1),
{
    match (hex_digit_of(b0), hex_digit_of(b1)) {
        (Some(h), Some(l)) => Some(16 * h + l),
        _ => None,
    }
}

/// Decodes a wasm hash of 64 hexadecimal digits (`0-9`, `a-f`, `A-F`) into
/// its 32 bytes; a text of another length in bytes, or one holding anything
/// but hexadecimal digits, is an error.
pub fn decode_hex32(input: &str) -> (r: Result<[u8; 32], String>)
    ensures
        match hex32(input.spec_bytes()) {
            Ok(bytes) => r is Ok && r->Ok_0@ == bytes,
            Err(e) => r is Err && r->Err_0@ == e,
        },
{
    let bytes = input.as_bytes();
    if bytes.len() != 64 {
        let n = u64_to_string(bytes.len() as u64);
        let msg = concat("expected 64 hex characters, got ", n.as_str());
        proof {
            reveal_strlit("expected 64 hex characters, got ");
        }
        return Err(msg);
    }
    let mut out = [0u8; 32];
    let mut i: usize = 0;
    while i < 32
        invariant
            bytes@ == input.spec_bytes(),
            bytes@.len() == 64,
            i <= 32,
            pairs_ok_below(bytes@, i as int),
            forall|j: int| 0 <= j < i ==> out@[j] == pair_at(bytes@, j)->Some_0,
        decreases 32 - i,
    {
        match hex_pair_of(bytes[2 * i], bytes[2 * i + 1]) {
            Some(v) => {
                out[i] = v;
            },
            None => {
                let msg = String::from_str("invalid hex in wasm hash: invalid digit found in string");
                proof {
                    reveal_strlit("invalid hex in wasm hash: invalid digit found in string");
                    assert(pair_at(bytes@, i as int) is None);
                }
                return Err(msg);
            },
        }
        i = i + 1;
    }
    proof {
        assert(out@ =~= Seq::new(32, |k: int| pair_at(bytes@, k)->Some_0));
    }
    Ok(out)
}

pub open spec fn network_mismatch_message(actual: Seq<char>, expected: Seq<char>) -> Seq<char> {
    "network passphrase mismatch: RPC says `"@ + actual + "`, expected `"@ + expected + "`"@
}

/// Fails unless the passphrase the RPC reports is the expected one.
pub fn check_network(actual: &str, expected: &str) -> (r: Result<(), String>)
    ensures
        actual@ == expected@ ==> r is Ok,
        actual@ != expected@ ==> (r matches Err(e) && e@ == network_mismatch_message(actual@, expected@)),
{
    if str_eq(actual, expected) {
        return Ok(());
    }
    let head = concat3("network passphrase mismatch: RPC says `", actual, "`, expected `");
    let msg = concat3(head.as_str(), expected, "`");
    proof {
        reveal_strlit("network passphrase mismatch: RPC says `");
        reveal_strlit("`, expected `");
        reveal_strlit("`");
    }
    Err(msg)
}

pub open spec fn source_required_message() -> Seq<char> {
    "--source (or config source) is required"@
}

/// The transaction source: the account of the signer secret when one is
/// given, else the `--source` account.
pub open spec fn resolved_source(signer_secret: Option<Seq<char>>, source: Option<Seq<char>>) -> Result<
    AccountId,
    Seq<char>,
> {
    match signer_secret {
        Some(secret) => secret_account(secret),
        None => match source {
            Some(s) => account_id_of(s),
            None => Err(source_required_message()),
        },
    }
}

/// Resolves the transaction source: the signer secret wins when present.
pub fn resolve_source(signer_secret: Option<&str>, source: Option<&str>) -> (r: Result<AccountId, String>)
    ensures
        match resolved_source(
            match signer_secret {
                Some(s) => Some(s@),
                None => None,
            },
            match source {
                Some(s) => Some(s@),
                None => None,
            },
        ) {
            Ok(a) => r matches Ok(b) && b == a,
            Err(e) => r matches Err(f) && f@ == e,
        },
{
    match signer_secret {
        Some(secret) => account_from_secret(secret),
        None => match source {
            Some(s) => decode_account_id(s),
            None => {
                proof {
                    reveal_strlit("--source (or config source) is required");
                }
                Err(String::from_str("--source (or config source) is required"))
            },
        },
    }
}

pub open spec fn failed_submission_message(kind: Seq<char>, status: Seq<char>) -> Seq<char> {
    kind + " transaction failed with status `"@ + status + "`"@
}

/// The outcome of a submitted transaction: its hash (`unknown` when the
/// network gives none) when the status is `SUCCESS`, else an error naming
/// the status.
pub fn submission_result(kind: &str, status: &str, tx_hash: Option<String>) -> (r: Result<String, String>)
    ensures
        status@ == "SUCCESS"@ ==> (r matches Ok(h) && h@ == (match tx_hash {
            Some(t) => t@,
            None => "unknown"@,
        })),
        status@ != "SUCCESS"@ ==> (r matches Err(e) && e@ == failed_submission_message(kind@, status@)),
{
    if str_eq(status, "SUCCESS") {
        return match tx_hash {
            Some(h) => Ok(h),
            None => {
                proof {
                    reveal_strlit("unknown");
                }
                Ok(String::from_str("unknown"))
            },
        };
    }
    let head = concat3(kind, " transaction failed with status `", status);
    let msg = concat(head.as_str(), "`");
    proof {
        reveal_strlit(" transaction failed with status `");
        reveal_strlit("`");
    }
    Err(msg)
}


/// The ledgers and times a transaction is valid for: from `min_ledger` to
/// `max_ledger`, and up to the unix time `max_time`.
#[derive(Clone, Copy, Debug, PartialEq, Eq)]
pub struct ValidityWindow {
    pub min_ledger: u32,
    pub max_ledger: u32,
    pub max_time: u64,
}

/// A window of `ledgers` ledgers and `secs` seconds from now.
pub fn validity_window(current_ledger: u32, now_secs: u64, ledgers: u32, secs: u64) -> (r: ValidityWindow)
    requires
        current_ledger + ledgers <= u32::MAX,
        now_secs + secs <= u64::MAX,
    ensures
        r.min_ledger == current_ledger,
        r.max_ledger == current_ledger + ledgers,
        r.max_time == now_secs + secs,
{
    ValidityWindow {
        min_ledger: current_ledger,
        max_ledger: current_ledger + ledgers,
        max_time: now_secs + secs,
    }
}

/// A restore transaction stays valid for 1_000 ledgers and an hour, so it can
/// be signed and submitted out of band.
pub fn restore_validity(current_ledger: u32, now_secs: u64) -> (r: ValidityWindow)
    requires
        current_ledger + 1_000 <= u32::MAX,
        now_secs + 3_600 <= u64::MAX,
    ensures
        r == (ValidityWindow {
            min_ledger: current_ledger,
            max_ledger: (current_ledger + 1_000) as u32,
            max_time: (now_secs + 3_600) as u64,
        }),
{
    validity_window(current_ledger, now_secs, 1_000, 3_600)
}

} // verus!
