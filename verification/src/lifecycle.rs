//! The three Soroban storage lifecycles.

use vstd::prelude::*;

verus! {

/// The storage lifecycle an entry is bound to.
///
/// | Lifecycle   | When TTL reaches zero                 | Restorable? |
/// |-------------|---------------------------------------|-------------|
/// | `Temporary` | Entry is permanently deleted          | Never       |
/// | `Persistent`| Entry is archived; restorable         | Yes         |
/// | `Instance`  | Contract instance archived            | Yes         |
#[derive(Clone, Copy, Debug, PartialEq, Eq, Hash, Structural)]
pub enum Lifecycle {
    /// Cheapest storage; permanently deleted on expiry.
    Temporary,
    /// Per-entry TTL; archived (and restorable) on expiry.
    Persistent,
    /// Stored inside the contract instance entry; shares the instance TTL.
    Instance,
}

/// The identifier the Soroban SDK uses for a lifecycle.
pub open spec fn lifecycle_name(l: Lifecycle) -> Seq<char> {
    match l {
        Lifecycle::Temporary => "temporary"@,
        Lifecycle::Persistent => "persistent"@,
        Lifecycle::Instance => "instance"@,
    }
}

/// Whether entries of this lifecycle can be restored after expiry.
pub open spec fn lifecycle_is_restorable(l: Lifecycle) -> bool {
    !(l is Temporary)
}

/// Whether this lifecycle may hold critical, irreplaceable data.
pub open spec fn lifecycle_accepts_critical(l: Lifecycle) -> bool {
    l is Persistent || l is Instance
}

/// Marks a type as critical: user funds, balances, positions, or any state
/// whose loss is irreversible. Critical data must never live in temporary
/// storage.
pub trait Critical {}

impl Lifecycle {
    /// The identifier used by the Soroban SDK, e.g. `"persistent"`.
    pub fn as_str(self) -> (r: &'static str)
        ensures
            r@ == lifecycle_name(self),
    {
        match self {
            Lifecycle::Temporary => "temporary",
            Lifecycle::Persistent => "persistent",
            Lifecycle::Instance => "instance",
        }
    }

    /// Whether entries with this lifecycle can ever be restored after expiry.
    pub fn is_restorable(self) -> (r: bool)
        ensures
            r == lifecycle_is_restorable(self),
    {
        !matches!(self, Lifecycle::Temporary)
    }

    /// Whether this lifecycle is safe for critical, irreplaceable data.
    pub fn accepts_critical(self) -> (r: bool)
        ensures
            r == lifecycle_accepts_critical(self),
    {
        !matches!(self, Lifecycle::Temporary)
    }
}

/// Critical data is accepted exactly by the lifecycles whose entries can be
/// restored after expiry.
pub proof fn lemma_critical_iff_restorable(l: Lifecycle)
    ensures
        lifecycle_accepts_critical(l) == lifecycle_is_restorable(l),
{
}

} // verus!
