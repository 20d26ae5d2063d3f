//! The TTL side of the storage operations behind the generated accessors:
//! which extension each operation asks the host for, and when.
//!
//! The host's `extend_ttl(key, threshold, extend_to)` extends an entry to
//! `extend_to` ledgers only while its current TTL is below `threshold`, and
//! never shortens it.

use vstd::prelude::*;
use crate::lifecycle::Lifecycle;
use crate::ttl::{TtlPolicy, clamp_policy, max_ttl};

verus! {

/// An extension request for the host: extend the entry to `extend_to`
/// ledgers if its current TTL is below `threshold` ledgers.
#[derive(Clone, Copy, Debug, PartialEq, Eq, Structural)]
pub struct TtlExtension {
    pub threshold: u32,
    pub extend_to: u32,
}

/// The TTL an entry has after the host applies `ext` to a TTL of `current`.
pub open spec fn ttl_after(current: u32, ext: TtlExtension) -> u32 {
    if current < ext.threshold && current < ext.extend_to {
        ext.extend_to
    } else {
        current
    }
}

/// The request that applies `policy` to an entry of `lifecycle`: the policy
/// clamped to the lifecycle maximum.
pub open spec fn policy_extension(lifecycle: Lifecycle, policy: TtlPolicy) -> TtlExtension {
    TtlExtension {
        threshold: clamp_policy(policy, lifecycle).threshold_ledgers,
        extend_to: clamp_policy(policy, lifecycle).extend_to_ledgers,
    }
}

/// The request of an explicit extension to at least `ttl_ledgers`.
pub open spec fn explicit(ttl_ledgers: u32) -> TtlExtension {
    TtlExtension { threshold: ttl_ledgers, extend_to: ttl_ledgers }
}

/// `bump`: applies `policy`, clamped to the lifecycle maximum, so the entry
/// is extended to the policy target only when its TTL is below the policy
/// threshold.
pub fn bump(lifecycle: Lifecycle, policy: &TtlPolicy) -> (r: TtlExtension)
    ensures
        r == policy_extension(lifecycle, *policy),
{
    let p = policy.clamped_for(lifecycle);
    TtlExtension { threshold: p.threshold_ledgers, extend_to: p.extend_to_ledgers }
}

/// `extend_ttl`: extends to at least `ttl_ledgers`, by using the target as
/// the threshold too.
pub fn extend_ttl(ttl_ledgers: u32) -> (r: TtlExtension)
    ensures
        r == explicit(ttl_ledgers),
{
    TtlExtension { threshold: ttl_ledgers, extend_to: ttl_ledgers }
}

/// `get`: a present entry is bumped when automatic bumping is on, unless
/// its TTL is pinned (`pinned`: it was last written by `set_ttl`, with no
/// `set` or `update` since): an explicit TTL overrides the policy, so a
/// pinned entry gets no implicit policy bump on reads. A missing entry is
/// never bumped.
pub fn get(present: bool, pinned: bool, lifecycle: Lifecycle, policy: &TtlPolicy, auto_bump: bool) -> (r:
    Option<TtlExtension>)
    ensures
        r == (if present && auto_bump && !pinned {
            Some(policy_extension(lifecycle, *policy))
        } else {
            None
        }),
{
    if present && auto_bump && !pinned {
        Some(bump(lifecycle, policy))
    } else {
        None
    }
}

/// `set` and `update`: after the write, the entry is bumped when automatic
/// bumping is on, and its TTL is no longer pinned.
pub fn set(lifecycle: Lifecycle, policy: &TtlPolicy, auto_bump: bool) -> (r: Option<TtlExtension>)
    ensures
        r == (if auto_bump {
            Some(policy_extension(lifecycle, *policy))
        } else {
            None
        }),
{
    if auto_bump {
        Some(bump(lifecycle, policy))
    } else {
        None
    }
}

/// `set_ttl`: after the write, the entry's TTL is pinned to `ttl_ledgers`
/// with an explicit extension; the policy plays no part, on this write and
/// on the reads that follow it.
pub fn set_ttl(ttl_ledgers: u32) -> (r: TtlExtension)
    ensures
        r == explicit(ttl_ledgers),
{
    extend_ttl(ttl_ledgers)
}

/// An explicit extension leaves an entry with `max(current, ttl_ledgers)`.
pub proof fn lemma_explicit_extension_is_max(current: u32, ttl_ledgers: u32)
    ensures
        ttl_after(current, explicit(ttl_ledgers)) == (if current < ttl_ledgers {
            ttl_ledgers
        } else {
            current
        }),
{
}

/// A policy bump never shortens a TTL and never extends past the lifecycle
/// maximum; it reaches the policy target exactly when the TTL was below both
/// the threshold and the (clamped) target.
pub proof fn lemma_bump_stays_within_lifecycle(current: u32, lifecycle: Lifecycle, policy: TtlPolicy)
    ensures
        ttl_after(current, policy_extension(lifecycle, policy)) >= current,
        current <= max_ttl(lifecycle) ==> ttl_after(current, policy_extension(lifecycle, policy))
            <= max_ttl(lifecycle),
        current >= policy.threshold_ledgers ==> ttl_after(current, policy_extension(lifecycle, policy))
            == current,
{
}

} // verus!
