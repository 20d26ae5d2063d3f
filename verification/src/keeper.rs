//! The rent keeper's decisions: retry backoff, transient-error detection,
//! and what one poll of a watched contract extends and reports.

use vstd::prelude::*;
use crate::risk::{
    BatchEntry, RiskLevel, classify, plan_batches, should_extend, spec_classify,
    spec_plan_batches, spec_ttl_remaining, ttl_remaining, batches_view,
};
use crate::rpc::{EntrySnapshot, ExtendOutcome, WatchKey};
use crate::text::{
    ascii_lowercase_chars, chars_of, concat, concat3, contains_chars, lemma_lower_of_upper,
    seq_contains, spec_ascii_lowercase, spec_ascii_uppercase, str_eq,
};
use crate::config::ContractConfig;
use crate::keys::{LedgerKey, contract_id_of, contract_instance_key, decode_contract_id, encode_ledger_key, ledger_key_xdr};
use crate::restore::{ValidityWindow, validity_window, Candidate, candidate_keys, candidate_view, candidates_view, restore_candidates, submission_result, failed_submission_message};

verus! {

/// The largest delay, in nanoseconds (`u64::MAX` seconds plus 999_999_999
/// nanoseconds).
pub const MAX_DELAY_NANOS: u128 = 18_446_744_073_709_551_615_999_999_999;

/// A span of time with nanosecond precision, as used by the retry backoff.
#[derive(Clone, Copy, Debug, PartialEq, Eq, Structural)]
pub struct Delay {
    nanos: u128,
}

impl Delay {
    #[verifier::type_invariant]
    spec fn bounded(self) -> bool {
        self.nanos <= MAX_DELAY_NANOS
    }

    /// The length of this delay in nanoseconds.
    pub closed spec fn spec_nanos(self) -> nat {
        self.nanos as nat
    }

    /// The length of this delay in nanoseconds.
    pub fn as_nanos(&self) -> (r: u128)
        ensures
            r == self.spec_nanos(),
            r <= MAX_DELAY_NANOS,
    {
        proof {
            use_type_invariant(self);
        }
        self.nanos
    }

    /// A delay of `nanos` nanoseconds.
    pub fn from_nanos(nanos: u64) -> (r: Delay)
        ensures
            r.spec_nanos() == nanos,
    {
        Delay { nanos: nanos as u128 }
    }

    /// A delay of `millis` milliseconds.
    pub fn from_millis(millis: u64) -> (r: Delay)
        ensures
            r.spec_nanos() == millis * 1_000_000,
    {
        Delay { nanos: millis as u128 * 1_000_000 }
    }

    /// A delay of `secs` seconds.
    pub fn from_secs(secs: u64) -> (r: Delay)
        ensures
            r.spec_nanos() == secs * 1_000_000_000,
    {
        Delay { nanos: secs as u128 * 1_000_000_000 }
    }

    /// This delay multiplied by `factor`, saturating at the largest delay.
    pub fn saturating_mul(self, factor: u32) -> (r: Delay)
        ensures
            r.spec_nanos() == if self.spec_nanos() * factor > MAX_DELAY_NANOS {
                MAX_DELAY_NANOS as int
            } else {
                self.spec_nanos() * factor
            },
    {
        proof {
            use_type_invariant(&self);
        }
        if factor == 0 {
            return Delay { nanos: 0 };
        }
        if self.nanos > MAX_DELAY_NANOS / (factor as u128) {
            proof {
                assert(self.nanos * factor > MAX_DELAY_NANOS) by (nonlinear_arith)
                    requires
                        self.nanos > MAX_DELAY_NANOS / (factor as u128),
                        factor > 0,
                ;
            }
            Delay { nanos: MAX_DELAY_NANOS }
        } else {
            proof {
                assert(self.nanos * factor <= MAX_DELAY_NANOS) by (nonlinear_arith)
                    requires
                        self.nanos <= MAX_DELAY_NANOS / (factor as u128),
                        factor > 0,
                ;
            }
            Delay { nanos: self.nanos * (factor as u128) }
        }
    }

    /// The shorter of two delays.
    pub fn min(self, other: Delay) -> (r: Delay)
        ensures
            r.spec_nanos() == if self.spec_nanos() <= other.spec_nanos() {
                self.spec_nanos()
            } else {
                other.spec_nanos()
            },
    {
        if self.nanos <= other.nanos {
            self
        } else {
            other
        }
    }
}

/// `2` to the power `n`.
pub open spec fn pow2(n: nat) -> nat
    decreases n,
{
    if n == 0 {
        1
    } else {
        2 * pow2((n - 1) as nat)
    }
}

proof fn lemma_pow2_monotone(a: nat, b: nat)
    requires
        a <= b,
    ensures
        pow2(a) <= pow2(b),
    decreases b,
{
    if a < b {
        lemma_pow2_monotone(a, (b - 1) as nat);
    }
}

/// Bounded exponential backoff for transient RPC failures.
#[derive(Clone, Copy, Debug, PartialEq, Eq)]
pub struct RetryPolicy {
    /// Total attempts, including the first.
    pub max_attempts: u32,
    /// Delay before the first retry; doubled for each subsequent retry.
    pub base_delay: Delay,
    /// Upper bound on any single backoff delay.
    pub max_delay: Delay,
}

impl Default for RetryPolicy {
    /// Three attempts, 200 ms first backoff, capped at 5 s.
    fn default() -> (r: Self)
        ensures
            r.max_attempts == 3,
            r.base_delay.spec_nanos() == 200_000_000,
            r.max_delay.spec_nanos() == 5_000_000_000,
    {
        RetryPolicy {
            max_attempts: 3,
            base_delay: Delay::from_millis(200),
            max_delay: Delay::from_secs(5),
        }
    }
}

/// How many retries follow the first attempt.
pub open spec fn spec_retries(max_attempts: u32) -> nat {
    if max_attempts == 0 {
        0
    } else {
        (max_attempts - 1) as nat
    }
}

/// The backoff before retry `attempt` (1-based): the base delay doubled for
/// each earlier retry (at most ten doublings), capped at `max_delay`.
pub open spec fn spec_delay_nanos(base: nat, max: nat, attempt: u32) -> nat {
    let shift: nat = if attempt == 0 {
        0
    } else if attempt - 1 > 10 {
        10
    } else {
        (attempt - 1) as nat
    };
    let grown = if base * pow2(shift) > MAX_DELAY_NANOS {
        MAX_DELAY_NANOS as nat
    } else {
        base * pow2(shift)
    };
    if grown <= max {
        grown
    } else {
        max
    }
}

impl RetryPolicy {
    /// How many times an operation may be retried after its first attempt.
    pub fn retries(&self) -> (r: u32)
        ensures
            r == spec_retries(self.max_attempts),
    {
        self.max_attempts.saturating_sub(1)
    }

    /// Delay before retry number `attempt` (1-based), doubling each time and
    /// clamped to `max_delay`.
    pub fn delay_for(&self, attempt: u32) -> (r: Delay)
        ensures
            r.spec_nanos() == spec_delay_nanos(
                self.base_delay.spec_nanos(),
                self.max_delay.spec_nanos(),
                attempt,
            ),
            attempt <= 1 ==> r.spec_nanos() == if self.base_delay.spec_nanos()
                <= self.max_delay.spec_nanos() {
                self.base_delay.spec_nanos()
            } else {
                self.max_delay.spec_nanos()
            },
            1 <= attempt <= 11 && self.base_delay.spec_nanos() * pow2((attempt - 1) as nat)
                <= self.max_delay.spec_nanos() ==> r.spec_nanos() == self.base_delay.spec_nanos()
                * pow2((attempt - 1) as nat),
    {
        proof {
            use_type_invariant(&self.max_delay);
            lemma_backoff_doubles_until_capped(
                self.base_delay.spec_nanos(),
                self.max_delay.spec_nanos(),
                attempt,
            );
        }
        let s = attempt.saturating_sub(1);
        let shift = if s > 10 {
            10
        } else {
            s
        };
        let mut factor: u32 = 1;
        let mut k: u32 = 0;
        while k < shift
            invariant
                k <= shift <= 10,
                factor == pow2(k as nat),
                factor <= 1024,
            decreases shift - k,
        {
            proof {
                lemma_pow2_monotone(k as nat, 9);
                reveal_with_fuel(pow2, 10);
            }
            factor = factor * 2;
            k = k + 1;
        }
        self.base_delay.saturating_mul(factor).min(self.max_delay)
    }

    /// After failed attempt number `attempt` (0 for the first try) with
    /// `error`, the number of the retry to make next, or `None` when the
    /// error is permanent or the retries are used up.
    pub fn next_attempt(&self, attempt: u32, error: &str) -> (r: Option<u32>)
        ensures
            r == if attempt < spec_retries(self.max_attempts) && spec_is_transient(error@) {
                Some((attempt + 1) as u32)
            } else {
                None::<u32>
            },
    {
        if attempt >= self.retries() || !is_transient(error) {
            None
        } else {
            Some(attempt + 1)
        }
    }
}

/// The backoff never exceeds `max_delay` and never shrinks from one retry to
/// the next; and a retry is only ever granted within the policy's retry
/// budget, numbered one past the failed attempt.
pub proof fn lemma_backoff_is_capped_and_monotone(base: nat, max: nat, a1: u32, a2: u32, max_attempts: u32, attempt: u32)
    requires
        a1 <= a2,
    ensures
        spec_delay_nanos(base, max, a1) <= max,
        spec_delay_nanos(base, max, a1) <= spec_delay_nanos(base, max, a2),
        attempt < spec_retries(max_attempts) ==> attempt + 1 <= spec_retries(max_attempts)
            && spec_retries(max_attempts) < max_attempts,
{
    let s1: nat = if a1 == 0 { 0 } else if a1 - 1 > 10 { 10 } else { (a1 - 1) as nat };
    let s2: nat = if a2 == 0 { 0 } else if a2 - 1 > 10 { 10 } else { (a2 - 1) as nat };
    assert(s1 <= s2);
    lemma_pow2_monotone(s1, s2);
    assert(base * pow2(s1) <= base * pow2(s2)) by (nonlinear_arith)
        requires
            pow2(s1) <= pow2(s2),
    ;
}

/// The backoff doubles from one retry to the next until the cap: the first
/// retry waits the base delay (or `max_delay` when that is shorter), retry
/// `attempt` (up to the eleventh) waits the base delay times
/// `2^(attempt - 1)` whenever that fits under `max_delay`, and up to the
/// eleventh retry each delay is twice the one before whenever twice the one
/// before fits under `max_delay`.
pub proof fn lemma_backoff_doubles_until_capped(base: nat, max: nat, attempt: u32)
    requires
        max <= MAX_DELAY_NANOS,
    ensures
        spec_delay_nanos(base, max, 1) == if base <= max {
            base
        } else {
            max
        },
        spec_delay_nanos(base, max, 0) == spec_delay_nanos(base, max, 1),
        1 <= attempt <= 11 && base * pow2((attempt - 1) as nat) <= max ==> spec_delay_nanos(
            base,
            max,
            attempt,
        ) == base * pow2((attempt - 1) as nat),
        1 <= attempt <= 10 && 2 * spec_delay_nanos(base, max, attempt) <= max ==> spec_delay_nanos(
            base,
            max,
            (attempt + 1) as u32,
        ) == 2 * spec_delay_nanos(base, max, attempt),
{
    assert(pow2(0) == 1);
    assert(base * 1 == base);
    if 1 <= attempt <= 10 && 2 * spec_delay_nanos(base, max, attempt) <= max {
        let k: nat = (attempt - 1) as nat;
        let d = spec_delay_nanos(base, max, attempt);
        assert(pow2(k + 1) == 2 * pow2(k));
        assert(base * pow2(k + 1) == 2 * (base * pow2(k))) by (nonlinear_arith)
            requires
                pow2(k + 1) == 2 * pow2(k),
        ;
        if max > 0 {
            assert(d < max);
            assert(d == base * pow2(k));
        }
    }
}

/// The fragments that mark an RPC error as transient.
pub open spec fn transient_needles() -> Seq<Seq<char>> {
    seq![
        "timeout"@,
        "timed out"@,
        "connection"@,
        "unavailable"@,
        "temporarily"@,
        "rate limit"@,
        "too many requests"@,
        "429"@,
        "502"@,
        "503"@,
        "504"@,
        "reset"@,
        "broken pipe"@,
        "eof"@,
    ]
}

/// Whether an error message, ASCII-lowercased, contains one of the transient
/// fragments.
pub open spec fn spec_is_transient(error: Seq<char>) -> bool {
    exists|i: int|
        0 <= i < transient_needles().len() && seq_contains(
            spec_ascii_lowercase(error),
            #[trigger] transient_needles()[i],
        )
}

/// Whether an error is transient does not depend on the case of its ASCII
/// letters, and an empty message, which names no transient failure, is
/// permanent.
pub proof fn lemma_transience_ignores_ascii_case(error: Seq<char>)
    ensures
        spec_is_transient(spec_ascii_uppercase(error)) == spec_is_transient(error),
        spec_is_transient(spec_ascii_lowercase(error)) == spec_is_transient(error),
        !spec_is_transient(Seq::<char>::empty()),
{
    lemma_lower_of_upper(error);
    assert(spec_ascii_lowercase(Seq::<char>::empty()) =~= Seq::<char>::empty());
    reveal_strlit("timeout");
    reveal_strlit("timed out");
    reveal_strlit("connection");
    reveal_strlit("unavailable");
    reveal_strlit("temporarily");
    reveal_strlit("rate limit");
    reveal_strlit("too many requests");
    reveal_strlit("429");
    reveal_strlit("502");
    reveal_strlit("503");
    reveal_strlit("504");
    reveal_strlit("reset");
    reveal_strlit("broken pipe");
    reveal_strlit("eof");
    assert forall|i: int| 0 <= i < transient_needles().len() implies !seq_contains(
        Seq::<char>::empty(),
        #[trigger] transient_needles()[i],
    ) by {
        assert(transient_needles()[i].len() > 0);
    }
}

/// Whether an RPC error looks transient and is therefore worth retrying: an
/// unrecognised error is treated as permanent.
pub fn is_transient(error: &str) -> (r: bool)
    ensures
        r == spec_is_transient(error@),
{
    let needles: Vec<&str> = vec![
        "timeout",
        "timed out",
        "connection",
        "unavailable",
        "temporarily",
        "rate limit",
        "too many requests",
        "429",
        "502",
        "503",
        "504",
        "reset",
        "broken pipe",
        "eof",
    ];
    assert(needles@.map_values(|s: &str| s@) =~= transient_needles());
    let lower = ascii_lowercase_chars(error);
    let mut i: usize = 0;
    while i < needles.len()
        invariant
            needles@.map_values(|s: &str| s@) == transient_needles(),
            lower@ == spec_ascii_lowercase(error@),
            i <= needles.len(),
            forall|j: int|
                0 <= j < i ==> !seq_contains(lower@, #[trigger] transient_needles()[j]),
        decreases needles.len() - i,
    {
        let needle = chars_of(needles[i]);
        assert(needle@ == transient_needles()[i as int]);
        if contains_chars(&lower, &needle) {
            return true;
        }
        i = i + 1;
    }
    false
}

} // verus!

verus! {

/// What to watch for one contract: resolved ledger keys plus the extension
/// policy.
#[derive(Clone, Debug)]
pub struct WatchConfig {
    /// The contract label (its `C...` id).
    pub label: String,
    /// Extend entries whose TTL is at or below this many ledgers.
    pub threshold_ledgers: u32,
    /// Extend entries to at least this many ledgers.
    pub extend_to_ledgers: u32,
    /// The ledger keys watched for this contract.
    pub keys: Vec<WatchKey>,
}

/// Outcome of one poll of one contract.
#[derive(Clone, Debug, PartialEq, Eq)]
pub struct PollReport {
    /// The contract label.
    pub watch: String,
    /// Entries found live.
    pub checked: usize,
    /// Entries at or below the threshold.
    pub critical: usize,
    /// Extension batches attempted.
    pub extended_batches: usize,
    /// Extension batches the network accepted.
    pub submitted: usize,
}

/// What one poll decides for a watched contract, before any extension is
/// sent: the TTL of every fetched entry, how many are critical, and the
/// extension batches.
#[derive(Clone, Debug)]
pub struct WatchPlan {
    /// Entries found live.
    pub checked: usize,
    /// Remaining TTL of each fetched entry, in fetch order.
    pub ttls: Vec<u32>,
    /// Entries at or below the threshold.
    pub critical: usize,
    /// The batches to extend, in order.
    pub batches: Vec<Vec<BatchEntry>>,
}

/// The entries due for extension, in fetch order.
pub open spec fn due_entries(snaps: Seq<EntrySnapshot>, current: u32, threshold: u32) -> Seq<BatchEntry>
    decreases snaps.len(),
{
    if snaps.len() == 0 {
        seq![]
    } else {
        let rest = due_entries(snaps.drop_last(), current, threshold);
        let s = snaps.last();
        if spec_ttl_remaining(s.live_until_ledger, current) <= threshold {
            rest.push(BatchEntry { key_xdr: s.key_xdr, size_bytes: s.size_bytes })
        } else {
            rest
        }
    }
}

/// How many fetched entries are classified `Critical`.
pub open spec fn critical_count(snaps: Seq<EntrySnapshot>, current: u32, threshold: u32, extend_to: u32) -> nat
    decreases snaps.len(),
{
    if snaps.len() == 0 {
        0
    } else {
        critical_count(snaps.drop_last(), current, threshold, extend_to) + if spec_classify(
            spec_ttl_remaining(snaps.last().live_until_ledger, current),
            threshold,
            extend_to,
        ) == RiskLevel::Critical {
            1nat
        } else {
            0nat
        }
    }
}

/// Decides one poll of a watched contract from the fetched snapshots: every
/// entry's remaining TTL, the critical count, and the extension batches of
/// the entries at or below the threshold.
pub fn plan_watch(
    watch: &WatchConfig,
    current_ledger: u32,
    snapshots: &[EntrySnapshot],
    max_batch_bytes: u32,
) -> (r: WatchPlan)
    ensures
        r.checked == snapshots.len(),
        r.ttls@.len() == snapshots.len(),
        forall|i: int|
            0 <= i < snapshots.len() ==> r.ttls@[i] == spec_ttl_remaining(
                #[trigger] snapshots@[i].live_until_ledger,
                current_ledger,
            ),
        r.critical == critical_count(
            snapshots@,
            current_ledger,
            watch.threshold_ledgers,
            watch.extend_to_ledgers,
        ),
        batches_view(r.batches@) == spec_plan_batches(
            due_entries(snapshots@, current_ledger, watch.threshold_ledgers),
            max_batch_bytes,
        ),
{
    let mut due: Vec<BatchEntry> = Vec::new();
    let mut ttls: Vec<u32> = Vec::new();
    let mut critical: usize = 0;
    let mut i: usize = 0;
    while i < snapshots.len()
        invariant
            i <= snapshots.len(),
            ttls@.len() == i,
            forall|j: int|
                0 <= j < i ==> ttls@[j] == spec_ttl_remaining(
                    #[trigger] snapshots@[j].live_until_ledger,
                    current_ledger,
                ),
            critical == critical_count(
                snapshots@.take(i as int),
                current_ledger,
                watch.threshold_ledgers,
                watch.extend_to_ledgers,
            ),
            critical <= i,
            due@ == due_entries(snapshots@.take(i as int), current_ledger, watch.threshold_ledgers),
        decreases snapshots.len() - i,
    {
        let snapshot = &snapshots[i];
        assert(snapshots@.take(i + 1).drop_last() =~= snapshots@.take(i as int));
        let ttl = ttl_remaining(snapshot.live_until_ledger, current_ledger);
        let level = classify(ttl, watch.threshold_ledgers, watch.extend_to_ledgers);
        ttls.push(ttl);
        if level == RiskLevel::Critical {
            critical = critical + 1;
        }
        if should_extend(ttl, watch.threshold_ledgers) {
            due.push(BatchEntry { key_xdr: snapshot.key_xdr.clone(), size_bytes: snapshot.size_bytes });
        }
        i = i + 1;
    }
    assert(snapshots@.take(snapshots.len() as int) =~= snapshots@);
    let batches = plan_batches(due.as_slice(), max_batch_bytes);
    WatchPlan { checked: snapshots.len(), ttls, critical, batches }
}

/// How many extension outcomes the network accepted.
pub open spec fn submitted_count(outcomes: Seq<Result<ExtendOutcome, String>>) -> nat
    decreases outcomes.len(),
{
    if outcomes.len() == 0 {
        0
    } else {
        submitted_count(outcomes.drop_last()) + if outcomes.last() is Ok && outcomes.last()->Ok_0 is Submitted {
            1nat
        } else {
            0nat
        }
    }
}

/// The report of one poll, from its plan and the outcome of each batch
/// extension, in batch order.
pub fn poll_report(
    watch: &WatchConfig,
    plan: &WatchPlan,
    outcomes: &[Result<ExtendOutcome, String>],
) -> (r: PollReport)
    requires
        outcomes.len() == plan.batches.len(),
    ensures
        r.watch@ == watch.label@,
        r.checked == plan.checked,
        r.critical == plan.critical,
        r.extended_batches == outcomes.len(),
        r.submitted == submitted_count(outcomes@),
{
    let mut submitted: usize = 0;
    let mut i: usize = 0;
    while i < outcomes.len()
        invariant
            i <= outcomes.len(),
            submitted == submitted_count(outcomes@.take(i as int)),
            submitted <= i,
        decreases outcomes.len() - i,
    {
        assert(outcomes@.take(i + 1).drop_last() =~= outcomes@.take(i as int));
        if let Ok(ExtendOutcome::Submitted { .. }) = &outcomes[i] {
            submitted = submitted + 1;
        }
        i = i + 1;
    }
    assert(outcomes@.take(outcomes.len() as int) =~= outcomes@);
    PollReport {
        watch: watch.label.clone(),
        checked: plan.checked,
        critical: plan.critical,
        extended_batches: outcomes.len(),
        submitted,
    }
}

/// The entries a poll extends are exactly the critical ones: their number is
/// the critical count, whatever the extension target.
pub proof fn lemma_due_entries_are_the_critical_ones(
    snaps: Seq<EntrySnapshot>,
    current: u32,
    threshold: u32,
    extend_to: u32,
)
    ensures
        due_entries(snaps, current, threshold).len() == critical_count(
            snaps,
            current,
            threshold,
            extend_to,
        ),
    decreases snaps.len(),
{
    if snaps.len() > 0 {
        lemma_due_entries_are_the_critical_ones(snaps.drop_last(), current, threshold, extend_to);
    }
}


/// A watched key as a pair of its label and its key.
pub open spec fn watch_key_view(k: WatchKey) -> (Seq<char>, Seq<char>) {
    (k.label@, k.key_xdr@)
}

pub open spec fn watch_keys_view(ks: Seq<WatchKey>) -> Seq<(Seq<char>, Seq<char>)> {
    ks.map_values(|k: WatchKey| watch_key_view(k))
}

pub open spec fn unresolved_wasm_message(contract: Seq<char>) -> Seq<char> {
    contract + ": could not resolve wasm hash from the contract instance (is the contract deployed?)"@
}

/// The keys watched for a contract: its instance, its code, then each
/// configured data key labelled `data:<i>`; without a wasm hash the contract
/// cannot be watched.
pub open spec fn watched_keys(
    contract: Seq<char>,
    contract_id: [u8; 32],
    data_keys: Seq<Seq<char>>,
    wasm_hash: Option<[u8; 32]>,
) -> Result<Seq<(Seq<char>, Seq<char>)>, Seq<char>> {
    match wasm_hash {
        Some(h) => candidate_keys(contract_id, data_keys, Some(h)),
        None => match ledger_key_xdr(LedgerKey::ContractInstance(contract_id)) {
            Err(e) => Err(e),
            Ok(_) => Err(unresolved_wasm_message(contract)),
        },
    }
}

fn watch_keys_from(cs: Vec<Candidate>) -> (r: Vec<WatchKey>)
    ensures
        watch_keys_view(r@) == candidates_view(cs@),
{
    let mut out: Vec<WatchKey> = Vec::new();
    let mut i: usize = 0;
    while i < cs.len()
        invariant
            i <= cs.len(),
            watch_keys_view(out@) == candidates_view(cs@.take(i as int)),
        decreases cs.len() - i,
    {
        let ghost before = out@;
        let k = WatchKey { label: cs[i].label.clone(), key_xdr: cs[i].key_xdr.clone() };
        out.push(k);
        proof {
            assert(watch_keys_view(out@) =~= watch_keys_view(before).push(watch_key_view(k)));
            assert(cs@.take(i + 1) =~= cs@.take(i as int).push(cs@[i as int]));
            assert(candidates_view(cs@.take(i + 1)) =~= candidates_view(cs@.take(i as int)).push(
                candidate_view(cs@[i as int]),
            ));
        }
        i = i + 1;
    }
    proof {
        assert(cs@.take(cs.len() as int) =~= cs@);
    }
    out
}

/// What to watch for a configured contract, given the wasm hash read from
/// its instance entry: its `C...` id must decode, and the keys are its
/// instance, its code and its data keys, with the contract's policy.
pub fn watch_config(cc: &ContractConfig, wasm_hash: Option<[u8; 32]>) -> (r: Result<WatchConfig, String>)
    requires
        cc.data_keys.len() + 2 <= usize::MAX,
    ensures
        match contract_id_of(cc.contract_id@) {
            Err(e) => r is Err && r->Err_0@ == e,
            Ok(contract_id) => match watched_keys(cc.contract_id@, contract_id, cc.data_keys.deep_view(), wasm_hash) {
                Ok(keys) => r is Ok && watch_keys_view(r->Ok_0.keys@) == keys && r->Ok_0.label@
                    == cc.contract_id@ && r->Ok_0.threshold_ledgers == cc.threshold_ledgers
                    && r->Ok_0.extend_to_ledgers == cc.extend_to_ledgers,
                Err(e) => r is Err && r->Err_0@ == e,
            },
        },
{
    let contract_id = decode_contract_id(cc.contract_id.as_str())?;
    let candidates = match wasm_hash {
        Some(h) => restore_candidates(contract_id, &cc.data_keys, Some(h))?,
        None => {
            let _instance = encode_ledger_key(&contract_instance_key(contract_id))?;
            let msg = concat(
                cc.contract_id.as_str(),
                ": could not resolve wasm hash from the contract instance (is the contract deployed?)",
            );
            proof {
                reveal_strlit(
                    ": could not resolve wasm hash from the contract instance (is the contract deployed?)",
                );
            }
            return Err(msg);
        },
    };
    let keys = watch_keys_from(candidates);
    Ok(
        WatchConfig {
            label: cc.contract_id.clone(),
            threshold_ledgers: cc.threshold_ledgers,
            extend_to_ledgers: cc.extend_to_ledgers,
            keys,
        },
    )
}

pub open spec fn configured_network_mismatch(actual: Seq<char>, configured: Seq<char>) -> Seq<char> {
    "network passphrase mismatch: RPC says `"@ + actual + "`, config says `"@ + configured + "`"@
}

/// Fails unless the passphrase the RPC reports is the configured one.
pub fn check_configured_network(actual: &str, configured: &str) -> (r: Result<(), String>)
    ensures
        actual@ == configured@ ==> r is Ok,
        actual@ != configured@ ==> (r matches Err(e) && e@ == configured_network_mismatch(
            actual@,
            configured@,
        )),
{
    if str_eq(actual, configured) {
        return Ok(());
    }
    let head = concat3("network passphrase mismatch: RPC says `", actual, "`, config says `");
    let msg = concat3(head.as_str(), configured, "`");
    proof {
        reveal_strlit("network passphrase mismatch: RPC says `");
        reveal_strlit("`, config says `");
        reveal_strlit("`");
    }
    Err(msg)
}

/// The outcome of a submitted extension: accepted with its hash (`unknown`
/// when the network gives none) when the status is `SUCCESS`, else an error
/// naming the status.
pub fn extension_outcome(status: &str, tx_hash: Option<String>) -> (r: Result<ExtendOutcome, String>)
    ensures
        status@ == "SUCCESS"@ ==> (r matches Ok(ExtendOutcome::Submitted { tx_hash: h }) && h@ == (
        match tx_hash {
            Some(t) => t@,
            None => "unknown"@,
        })),
        status@ != "SUCCESS"@ ==> (r matches Err(e) && e@ == failed_submission_message(
            "extension"@,
            status@,
        )),
{
    proof {
        reveal_strlit("extension");
    }
    match submission_result("extension", status, tx_hash) {
        Ok(h) => Ok(ExtendOutcome::Submitted { tx_hash: h }),
        Err(e) => Err(e),
    }
}

pub open spec fn sum_sizes(sizes: Seq<u32>) -> int
    decreases sizes.len(),
{
    if sizes.len() == 0 {
        0
    } else {
        sum_sizes(sizes.drop_last()) + sizes.last()
    }
}

/// The size the keeper counts for an entry or key whose XDR encoding is
/// `encoded_len` bytes long (taken modulo 2^32); where the encoding failed
/// (`None`), an estimate of 300 bytes.
pub fn size_or_estimate(encoded_len: Option<usize>) -> (r: u32)
    ensures
        r == match encoded_len {
            Some(n) => n as u32,
            None => 300u32,
        },
{
    match encoded_len {
        Some(n) => n as u32,
        None => 300,
    }
}

/// The bytes an extension footprint reads: the sum of the encoded key sizes.
pub fn footprint_read_bytes(sizes: &Vec<u32>) -> (r: u32)
    requires
        sum_sizes(sizes@) <= u32::MAX,
    ensures
        r == sum_sizes(sizes@),
{
    let mut total: u32 = 0;
    let mut i: usize = 0;
    while i < sizes.len()
        invariant
            i <= sizes.len(),
            sum_sizes(sizes@) <= u32::MAX,
            total == sum_sizes(sizes@.take(i as int)),
        decreases sizes.len() - i,
    {
        proof {
            assert(sizes@.take(i + 1).drop_last() =~= sizes@.take(i as int));
            lemma_sum_prefix(sizes@, i as int + 1);
        }
        total = total + sizes[i];
        i = i + 1;
    }
    proof {
        assert(sizes@.take(sizes.len() as int) =~= sizes@);
    }
    total
}

proof fn lemma_sum_prefix(sizes: Seq<u32>, n: int)
    requires
        0 <= n <= sizes.len(),
    ensures
        sum_sizes(sizes.take(n)) <= sum_sizes(sizes),
    decreases sizes.len() - n,
{
    if n < sizes.len() {
        lemma_sum_prefix(sizes, n + 1);
        assert(sizes.take(n + 1).drop_last() =~= sizes.take(n));
    } else {
        assert(sizes.take(n) =~= sizes);
    }
}


/// An extension transaction is valid for 200 ledgers and five minutes: it is
/// built, signed and submitted at once.
pub fn extension_validity(current_ledger: u32, now_secs: u64) -> (r: ValidityWindow)
    requires
        current_ledger + 200 <= u32::MAX,
        now_secs + 300 <= u64::MAX,
    ensures
        r == (ValidityWindow {
            min_ledger: current_ledger,
            max_ledger: (current_ledger + 200) as u32,
            max_time: (now_secs + 300) as u64,
        }),
{
    validity_window(current_ledger, now_secs, 200, 300)
}

} // verus!
