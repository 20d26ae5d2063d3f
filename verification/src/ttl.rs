//! TTL policies and ledger arithmetic.

use vstd::prelude::*;
use crate::lifecycle::Lifecycle;

verus! {

/// Number of ledgers in one day at the current ~5-second ledger cadence.
pub const LEDGERS_PER_DAY: u32 = 17_280;

/// Minimum TTL (in ledgers) a restored persistent entry receives. Network
/// parameter, subject to upgrade.
pub const MIN_PERSISTENT_TTL: u32 = 4_095;

/// Maximum TTL a persistent entry can be extended to (~365 days). Network
/// parameter; the host clamps extension requests above it.
pub const MAX_PERSISTENT_TTL: u32 = 6_311_390;

/// Maximum TTL a temporary entry can be extended to (~180 days). Network
/// parameter; the host clamps extension requests above it.
pub const MAX_TEMP_TTL: u32 = 3_110_400;

/// The maximum TTL the network grants entries of a lifecycle.
pub open spec fn max_ttl(l: Lifecycle) -> u32 {
    match l {
        Lifecycle::Temporary => MAX_TEMP_TTL,
        Lifecycle::Persistent | Lifecycle::Instance => MAX_PERSISTENT_TTL,
    }
}

/// How long an entry lives, expressed as TTL thresholds for `extend_ttl`:
/// the entry is extended to `extend_to_ledgers` only if its current TTL is
/// below `threshold_ledgers`.
#[derive(Clone, Copy, Debug, PartialEq, Eq, Structural)]
pub struct TtlPolicy {
    /// Only extend when the current TTL is below this many ledgers.
    pub threshold_ledgers: u32,
    /// Extend the TTL to at least this many ledgers (host-clamped to the
    /// lifecycle maximum).
    pub extend_to_ledgers: u32,
}

/// The policy `extend_ttl` applies: threshold and target, in ledgers.
pub open spec fn policy(threshold: int, extend_to: int) -> TtlPolicy {
    TtlPolicy { threshold_ledgers: threshold as u32, extend_to_ledgers: extend_to as u32 }
}

/// The policy with `extend_to` clamped to the lifecycle maximum.
pub open spec fn clamp_policy(p: TtlPolicy, l: Lifecycle) -> TtlPolicy {
    TtlPolicy {
        threshold_ledgers: p.threshold_ledgers,
        extend_to_ledgers: if p.extend_to_ledgers > max_ttl(l) {
            max_ttl(l)
        } else {
            p.extend_to_ledgers
        },
    }
}

/// The default policy of each lifecycle, in ledgers.
pub open spec fn spec_default_policy(l: Lifecycle) -> TtlPolicy {
    match l {
        Lifecycle::Temporary => policy(LEDGERS_PER_DAY as int, 30 * LEDGERS_PER_DAY),
        Lifecycle::Persistent | Lifecycle::Instance => policy(
            7 * LEDGERS_PER_DAY,
            30 * LEDGERS_PER_DAY,
        ),
    }
}

impl TtlPolicy {
    /// A policy with explicit ledger thresholds.
    pub fn new(threshold_ledgers: u32, extend_to_ledgers: u32) -> (r: Self)
        ensures
            r.threshold_ledgers == threshold_ledgers,
            r.extend_to_ledgers == extend_to_ledgers,
    {
        TtlPolicy { threshold_ledgers, extend_to_ledgers }
    }

    /// A policy expressed in days (17_280 ledgers per day).
    pub fn days(threshold_days: u32, extend_days: u32) -> (r: Self)
        requires
            threshold_days * LEDGERS_PER_DAY <= u32::MAX,
            extend_days * LEDGERS_PER_DAY <= u32::MAX,
        ensures
            r == policy(threshold_days * LEDGERS_PER_DAY, extend_days * LEDGERS_PER_DAY),
    {
        TtlPolicy::new(threshold_days * LEDGERS_PER_DAY, extend_days * LEDGERS_PER_DAY)
    }

    /// Clamps `extend_to_ledgers` to the maximum allowed for `lifecycle`;
    /// the threshold is kept.
    pub fn clamped_for(self, lifecycle: Lifecycle) -> (r: Self)
        ensures
            r == clamp_policy(self, lifecycle),
    {
        let max = match lifecycle {
            Lifecycle::Temporary => MAX_TEMP_TTL,
            Lifecycle::Persistent | Lifecycle::Instance => MAX_PERSISTENT_TTL,
        };
        let extend_to = if self.extend_to_ledgers > max {
            max
        } else {
            self.extend_to_ledgers
        };
        TtlPolicy { threshold_ledgers: self.threshold_ledgers, extend_to_ledgers: extend_to }
    }
}

impl Default for TtlPolicy {
    /// Re-extend when the TTL drops below 7 days, to 30 days.
    fn default() -> (r: Self)
        ensures
            r == policy(7 * LEDGERS_PER_DAY, 30 * LEDGERS_PER_DAY),
    {
        TtlPolicy::days(7, 30)
    }
}

/// The default policy for a lifecycle: temporary entries re-extend below
/// 1 day, persistent and instance entries below 7 days; all extend to 30 days.
pub fn default_policy(lifecycle: Lifecycle) -> (r: TtlPolicy)
    ensures
        r == spec_default_policy(lifecycle),
{
    match lifecycle {
        Lifecycle::Temporary => TtlPolicy::new(LEDGERS_PER_DAY, 30 * LEDGERS_PER_DAY),
        Lifecycle::Persistent | Lifecycle::Instance => TtlPolicy::new(
            7 * LEDGERS_PER_DAY,
            30 * LEDGERS_PER_DAY,
        ),
    }
}

/// Clamping is idempotent, never raises the target above the lifecycle
/// maximum, never lowers a target that is already within it, and keeps the
/// threshold.
pub proof fn lemma_clamp_properties(p: TtlPolicy, l: Lifecycle)
    ensures
        clamp_policy(clamp_policy(p, l), l) == clamp_policy(p, l),
        clamp_policy(p, l).extend_to_ledgers <= max_ttl(l),
        p.extend_to_ledgers <= max_ttl(l) ==> clamp_policy(p, l) == p,
        clamp_policy(p, l).threshold_ledgers == p.threshold_ledgers,
{
}

/// Every default policy re-extends below its target, and its target lies
/// within the lifecycle maximum, so clamping leaves it unchanged.
pub proof fn lemma_default_policies_are_sound(l: Lifecycle)
    ensures
        spec_default_policy(l).threshold_ledgers < spec_default_policy(l).extend_to_ledgers,
        clamp_policy(spec_default_policy(l), l) == spec_default_policy(l),
{
}

} // verus!
