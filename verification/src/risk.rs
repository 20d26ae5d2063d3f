//! Eviction-risk classification and extension batching for the rent keeper.

use vstd::prelude::*;

verus! {

/// How close an entry is to eviction.
#[derive(Clone, Copy, Debug, PartialEq, Eq, PartialOrd, Ord, Structural)]
pub enum RiskLevel {
    /// TTL is at or above the extension target.
    Safe,
    /// TTL is inside the policy envelope; the normal cadence extends it.
    Watch,
    /// TTL is at or below the extension threshold: extend on this poll.
    Critical,
}

/// The label of a risk level.
pub open spec fn risk_name(l: RiskLevel) -> Seq<char> {
    match l {
        RiskLevel::Safe => "safe"@,
        RiskLevel::Watch => "watch"@,
        RiskLevel::Critical => "critical"@,
    }
}

impl RiskLevel {
    /// The label used in metrics and logs.
    pub fn as_str(self) -> (r: &'static str)
        ensures
            r@ == risk_name(self),
    {
        match self {
            RiskLevel::Safe => "safe",
            RiskLevel::Watch => "watch",
            RiskLevel::Critical => "critical",
        }
    }
}

/// TTL of a single watched entry, as seen from the ledger.
#[derive(Clone, Debug, PartialEq, Eq)]
pub struct EntryTtl {
    /// `live_until_ledger` of the entry.
    pub live_until_ledger: u32,
    /// Serialized size in bytes.
    pub size_bytes: u32,
}

/// Ledgers remaining until `live_until_ledger`, zero once it has passed.
pub open spec fn spec_ttl_remaining(live_until_ledger: u32, current_ledger: u32) -> u32 {
    if live_until_ledger >= current_ledger {
        (live_until_ledger - current_ledger) as u32
    } else {
        0
    }
}

/// The risk window of a TTL under a threshold and a target.
pub open spec fn spec_classify(ttl: u32, threshold_ledgers: u32, extend_to_ledgers: u32) -> RiskLevel {
    if ttl <= threshold_ledgers {
        RiskLevel::Critical
    } else if ttl < extend_to_ledgers {
        RiskLevel::Watch
    } else {
        RiskLevel::Safe
    }
}

/// Ledgers remaining until `live_until_ledger` (saturating at zero).
pub fn ttl_remaining(live_until_ledger: u32, current_ledger: u32) -> (r: u32)
    ensures
        r == spec_ttl_remaining(live_until_ledger, current_ledger),
{
    live_until_ledger.saturating_sub(current_ledger)
}

/// Classifies the eviction risk of an entry: `Critical` at or below the
/// threshold, `Watch` below the target, `Safe` otherwise.
pub fn classify(ttl: u32, threshold_ledgers: u32, extend_to_ledgers: u32) -> (r: RiskLevel)
    ensures
        r == spec_classify(ttl, threshold_ledgers, extend_to_ledgers),
{
    if ttl <= threshold_ledgers {
        RiskLevel::Critical
    } else if ttl < extend_to_ledgers {
        RiskLevel::Watch
    } else {
        RiskLevel::Safe
    }
}

/// Whether the keeper should extend this entry on this poll.
pub fn should_extend(ttl: u32, threshold_ledgers: u32) -> (r: bool)
    ensures
        r == (ttl <= threshold_ledgers),
{
    ttl <= threshold_ledgers
}

/// Ledgers until the entry crosses into `Critical` (negative once past it).
pub fn ledgers_until_critical(ttl: u32, threshold_ledgers: u32) -> (r: i64)
    ensures
        r == ttl - threshold_ledgers,
{
    ttl as i64 - threshold_ledgers as i64
}

/// Whether the signer account can still pay for extensions.
pub fn signer_balance_is_sufficient(balance_stroops: i64, floor_stroops: i64) -> (r: bool)
    ensures
        r == (balance_stroops >= floor_stroops),
{
    balance_stroops >= floor_stroops
}

/// An entry is extended exactly when it is classified `Critical`.
pub proof fn lemma_extend_iff_critical(ttl: u32, threshold_ledgers: u32, extend_to_ledgers: u32)
    ensures
        (ttl <= threshold_ledgers) == (spec_classify(ttl, threshold_ledgers, extend_to_ledgers)
            == RiskLevel::Critical),
{
}

/// The risk level never decreases as the TTL shrinks: for a smaller TTL the
/// level is at least as severe.
pub proof fn lemma_classify_monotone(t1: u32, t2: u32, threshold: u32, extend_to: u32)
    requires
        t1 <= t2,
    ensures
        severity(spec_classify(t2, threshold, extend_to)) <= severity(
            spec_classify(t1, threshold, extend_to),
        ),
{
}

/// The severity rank of a level (`Safe` < `Watch` < `Critical`).
pub open spec fn severity(l: RiskLevel) -> int {
    match l {
        RiskLevel::Safe => 0,
        RiskLevel::Watch => 1,
        RiskLevel::Critical => 2,
    }
}

/// An entry queued for extension.
#[derive(Clone, Debug, PartialEq, Eq)]
pub struct BatchEntry {
    /// The base64-XDR `LedgerKey` to include in the footprint.
    pub key_xdr: String,
    /// Serialized size in bytes.
    pub size_bytes: u32,
}

impl BatchEntry {
    /// A copy of this entry.
    pub fn copy(&self) -> (r: BatchEntry)
        ensures
            r == *self,
    {
        BatchEntry { key_xdr: self.key_xdr.clone(), size_bytes: self.size_bytes }
    }
}

/// `a + b`, saturating at `u32::MAX`.
pub open spec fn sat_add(a: u32, b: u32) -> u32 {
    if a + b > u32::MAX {
        u32::MAX
    } else {
        (a + b) as u32
    }
}

/// The greedy batching state after the entries `es`: the closed batches, the
/// open batch and its (saturating) byte count.
pub open spec fn batch_state(es: Seq<BatchEntry>, cap: u32) -> (Seq<Seq<BatchEntry>>, Seq<BatchEntry>, u32)
    decreases es.len(),
{
    if es.len() == 0 {
        (seq![], seq![], 0)
    } else {
        let prev = batch_state(es.drop_last(), cap);
        let e = es.last();
        if prev.1.len() > 0 && sat_add(prev.2, e.size_bytes) > cap {
            (prev.0.push(prev.1), seq![e], e.size_bytes)
        } else {
            (prev.0, prev.1.push(e), sat_add(prev.2, e.size_bytes))
        }
    }
}

/// The batches the keeper submits: entries are taken in order and a new batch
/// starts whenever adding the next entry would push a non-empty batch over
/// `cap` bytes.
pub open spec fn spec_plan_batches(es: Seq<BatchEntry>, cap: u32) -> Seq<Seq<BatchEntry>> {
    let st = batch_state(es, cap);
    if st.1.len() > 0 {
        st.0.push(st.1)
    } else {
        st.0
    }
}

/// Total size of a batch, in bytes.
pub open spec fn batch_bytes(b: Seq<BatchEntry>) -> int
    decreases b.len(),
{
    if b.len() == 0 {
        0
    } else {
        batch_bytes(b.drop_last()) + b.last().size_bytes
    }
}

/// The views of a list of batches.
pub open spec fn batches_view(bs: Seq<Vec<BatchEntry>>) -> Seq<Seq<BatchEntry>> {
    bs.map_values(|b: Vec<BatchEntry>| b@)
}

/// Partitions entries into extension batches of at most `max_batch_bytes`
/// (a single oversized entry gets a batch of its own).
pub fn plan_batches(entries: &[BatchEntry], max_batch_bytes: u32) -> (r: Vec<Vec<BatchEntry>>)
    ensures
        batches_view(r@) == spec_plan_batches(entries@, max_batch_bytes),
{
    let mut batches: Vec<Vec<BatchEntry>> = Vec::new();
    let mut current: Vec<BatchEntry> = Vec::new();
    let mut current_bytes: u32 = 0;
    let mut i: usize = 0;
    while i < entries.len()
        invariant
            i <= entries.len(),
            batch_state(entries@.take(i as int), max_batch_bytes) == (
                batches_view(batches@),
                current@,
                current_bytes,
            ),
        decreases entries.len() - i,
    {
        let entry = &entries[i];
        assert(entries@.take(i + 1).drop_last() =~= entries@.take(i as int));
        if current.len() > 0 && current_bytes.saturating_add(entry.size_bytes) > max_batch_bytes {
            let ghost before = batches_view(batches@);
            batches.push(current);
            assert(batches_view(batches@) =~= before.push(current@));
            current = Vec::new();
            current_bytes = 0;
        }
        current_bytes = current_bytes.saturating_add(entry.size_bytes);
        current.push(entry.copy());
        i = i + 1;
        assert(current@ =~= batch_state(entries@.take(i as int), max_batch_bytes).1);
    }
    assert(entries@.take(entries.len() as int) =~= entries@);
    if current.len() > 0 {
        let ghost before = batches_view(batches@);
        batches.push(current);
        assert(batches_view(batches@) =~= before.push(current@));
    }
    batches
}

/// `x` saturated at `u32::MAX`.
pub open spec fn sat(x: int) -> int {
    if x > u32::MAX {
        u32::MAX as int
    } else {
        x
    }
}

/// What the greedy state keeps true after every entry.
pub open spec fn batch_state_ok(es: Seq<BatchEntry>, cap: u32, st: (
    Seq<Seq<BatchEntry>>,
    Seq<BatchEntry>,
    u32,
)) -> bool {
    &&& st.0.flatten() + st.1 == es
    &&& (st.1.len() > 0) == (es.len() > 0)
    &&& st.2 == sat(batch_bytes(st.1))
    &&& st.1.len() >= 2 ==> sat(batch_bytes(st.1)) <= cap
    &&& forall|i: int| 0 <= i < st.0.len() ==> (#[trigger] st.0[i]).len() > 0
    &&& forall|i: int|
        0 <= i < st.0.len() && (#[trigger] st.0[i]).len() >= 2 ==> sat(batch_bytes(st.0[i])) <= cap
    &&& forall|i: int|
        0 <= i < st.0.len() - 1 ==> sat(batch_bytes(#[trigger] st.0[i]) + st.0[i + 1][0].size_bytes)
            > cap
    &&& st.0.len() > 0 && st.1.len() > 0 ==> sat(batch_bytes(st.0.last()) + st.1[0].size_bytes) > cap
}

proof fn lemma_batch_bytes_nonneg(b: Seq<BatchEntry>)
    ensures
        batch_bytes(b) >= 0,
    decreases b.len(),
{
    if b.len() > 0 {
        lemma_batch_bytes_nonneg(b.drop_last());
    }
}

proof fn lemma_batch_state_ok(es: Seq<BatchEntry>, cap: u32)
    ensures
        batch_state_ok(es, cap, batch_state(es, cap)),
    decreases es.len(),
{
    broadcast use Seq::lemma_flatten_push;

    if es.len() > 0 {
        let prev = batch_state(es.drop_last(), cap);
        lemma_batch_state_ok(es.drop_last(), cap);
        lemma_batch_bytes_nonneg(prev.1);
        let e = es.last();
        assert(es.drop_last().push(e) =~= es);
        if prev.1.len() > 0 && sat_add(prev.2, e.size_bytes) > cap {
            let nb = prev.0.push(prev.1);
            assert(nb.flatten() == prev.0.flatten() + prev.1);
            assert(nb.flatten() + seq![e] =~= es);
            assert(seq![e].drop_last() =~= Seq::<BatchEntry>::empty());
            assert(batch_bytes(Seq::<BatchEntry>::empty()) == 0);
            assert(batch_bytes(seq![e]) == e.size_bytes);
            assert forall|i: int| 0 <= i < nb.len() - 1 implies sat(batch_bytes(#[trigger] nb[i])
                + nb[i + 1][0].size_bytes) > cap by {
                if i < prev.0.len() - 1 {
                    assert(nb[i] == prev.0[i] && nb[i + 1] == prev.0[i + 1]);
                } else {
                    assert(nb[i] == prev.0.last() && nb[i + 1] == prev.1);
                }
            }
            assert(nb.last() == prev.1);
        } else {
            let nc = prev.1.push(e);
            assert(nc.drop_last() =~= prev.1);
            assert(batch_bytes(nc) == batch_bytes(prev.1) + e.size_bytes);
            assert(prev.0.flatten() + nc =~= es);
            if prev.1.len() > 0 {
                assert(nc[0] == prev.1[0]);
            }
        }
    } else {
        let st = batch_state(es, cap);
        assert(st.0.flatten() =~= Seq::<BatchEntry>::empty());
        assert(st.0.flatten() + st.1 =~= es);
    }
}

/// Batching is a partition of the entries into non-empty batches, in order;
/// a batch of two or more entries stays within `cap` bytes, and a batch is
/// closed only when the next entry would have pushed it over `cap`, byte
/// counts being taken as the batcher counts them, saturated at `u32::MAX`.
/// An empty input gives no batch.
pub proof fn lemma_plan_batches_partition(es: Seq<BatchEntry>, cap: u32)
    ensures
        spec_plan_batches(es, cap).flatten() == es,
        forall|i: int|
            0 <= i < spec_plan_batches(es, cap).len() ==> (#[trigger] spec_plan_batches(
                es,
                cap,
            )[i]).len() > 0,
        forall|i: int|
            0 <= i < spec_plan_batches(es, cap).len() && (#[trigger] spec_plan_batches(
                es,
                cap,
            )[i]).len() >= 2 ==> sat(batch_bytes(spec_plan_batches(es, cap)[i])) <= cap,
        forall|i: int|
            0 <= i < spec_plan_batches(es, cap).len() - 1 ==> sat(
                batch_bytes(#[trigger] spec_plan_batches(es, cap)[i]) + spec_plan_batches(
                    es,
                    cap,
                )[i + 1][0].size_bytes,
            ) > cap,
        es.len() == 0 <==> spec_plan_batches(es, cap).len() == 0,
{
    broadcast use Seq::lemma_flatten_push;

    lemma_batch_state_ok(es, cap);
    let st = batch_state(es, cap);
    let r = spec_plan_batches(es, cap);
    if st.1.len() > 0 {
        assert(r == st.0.push(st.1));
        assert(r.flatten() == st.0.flatten() + st.1);
        assert forall|i: int| 0 <= i < r.len() - 1 implies sat(batch_bytes(#[trigger] r[i])
            + r[i + 1][0].size_bytes) > cap by {
            if i < st.0.len() - 1 {
                assert(r[i] == st.0[i] && r[i + 1] == st.0[i + 1]);
            } else {
                assert(r[i] == st.0.last() && r[i + 1] == st.1);
            }
        }
        assert forall|i: int| 0 <= i < r.len() implies (#[trigger] r[i]).len() > 0 by {
            if i < st.0.len() {
                assert(r[i] == st.0[i]);
            }
        }
        assert forall|i: int| 0 <= i < r.len() && (#[trigger] r[i]).len() >= 2 implies sat(
            batch_bytes(r[i]),
        ) <= cap by {
            if i < st.0.len() {
                assert(r[i] == st.0[i]);
            }
        }
    } else {
        assert(st.0.flatten() + st.1 =~= st.0.flatten());
    }
}

} // verus!
