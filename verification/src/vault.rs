//! The rules of the example vault contract: balances in persistent storage,
//! replay-protection nonces in temporary storage, and 14-day grants with a
//! pinned TTL.
//!
//! Each operation is a transition from the stored values it reads to the
//! values it writes, or the contract error it fails with.

use vstd::prelude::*;
use crate::ttl::LEDGERS_PER_DAY;

verus! {

/// The errors the vault contract fails with.
#[derive(Clone, Copy, Debug, PartialEq, Eq, Structural)]
pub enum VaultError {
    NotAdmin,
    NonPositiveAmount,
    InsufficientBalance,
    NothingToClaim,
    StaleNonce,
}

/// The vault contract.
pub struct Vault;

/// A stored balance, with a missing entry read as zero.
pub open spec fn stored(balance: Option<i128>) -> int {
    match balance {
        Some(b) => b as int,
        None => 0,
    }
}

/// The balance after depositing `amount`, or the error.
pub open spec fn after_deposit(balance: Option<i128>, amount: i128) -> Result<int, VaultError> {
    if amount <= 0 {
        Err(VaultError::NonPositiveAmount)
    } else {
        Ok(stored(balance) + amount)
    }
}

/// The balance after withdrawing `amount`, or the error.
pub open spec fn after_withdraw(balance: Option<i128>, amount: i128) -> Result<int, VaultError> {
    if amount <= 0 {
        Err(VaultError::NonPositiveAmount)
    } else if stored(balance) < amount {
        Err(VaultError::InsufficientBalance)
    } else {
        Ok(stored(balance) - amount)
    }
}

/// The claimed amount and the balance after claiming a grant, or the error.
pub open spec fn after_claim(grant: Option<i128>, balance: Option<i128>) -> Result<(int, int), VaultError> {
    if stored(grant) == 0 {
        Err(VaultError::NothingToClaim)
    } else {
        Ok((stored(grant), stored(balance) + stored(grant)))
    }
}

/// The last nonce (zero when none is recorded).
pub open spec fn last_nonce(last: Option<u64>) -> u64 {
    match last {
        Some(l) => l,
        None => 0,
    }
}

/// The nonce recorded after consuming `nonce`, or the error.
pub open spec fn after_nonce(last: Option<u64>, nonce: u64) -> Result<u64, VaultError> {
    if nonce <= last_nonce(last) {
        Err(VaultError::StaleNonce)
    } else {
        Ok(nonce)
    }
}

impl Vault {
    /// The balance a user holds: the stored value, or zero when none is stored.
    pub fn balance(stored_balance: Option<i128>) -> (r: i128)
        ensures
            r == stored(stored_balance),
    {
        match stored_balance {
            Some(b) => b,
            None => 0,
        }
    }

    /// Deposits `amount`: refused unless positive, else the new balance is
    /// the old one plus `amount`.
    pub fn deposit(stored_balance: Option<i128>, amount: i128) -> (r: Result<i128, VaultError>)
        requires
            amount <= 0 || stored(stored_balance) + amount <= i128::MAX,
        ensures
            match r {
                Ok(v) => after_deposit(stored_balance, amount) == Ok::<int, VaultError>(v as int),
                Err(e) => after_deposit(stored_balance, amount) == Err::<int, VaultError>(e),
            },
    {
        if amount <= 0 {
            return Err(VaultError::NonPositiveAmount);
        }
        Ok(Vault::balance(stored_balance) + amount)
    }

    /// Withdraws `amount`: refused unless positive, and refused when it
    /// exceeds the balance; else the new balance is the old one minus
    /// `amount`.
    pub fn withdraw(stored_balance: Option<i128>, amount: i128) -> (r: Result<i128, VaultError>)
        ensures
            match r {
                Ok(v) => after_withdraw(stored_balance, amount) == Ok::<int, VaultError>(v as int),
                Err(e) => after_withdraw(stored_balance, amount) == Err::<int, VaultError>(e),
            },
    {
        if amount <= 0 {
            return Err(VaultError::NonPositiveAmount);
        }
        let balance = Vault::balance(stored_balance);
        if balance < amount {
            return Err(VaultError::InsufficientBalance);
        }
        Ok(balance - amount)
    }

    /// Grants `amount`: refused unless positive, else the grant is written
    /// with its TTL pinned to the returned number of ledgers (14 days).
    pub fn grant(amount: i128) -> (r: Result<u32, VaultError>)
        ensures
            amount <= 0 ==> r == Err::<u32, VaultError>(VaultError::NonPositiveAmount),
            amount > 0 ==> r == Ok::<u32, VaultError>((14 * LEDGERS_PER_DAY) as u32),
    {
        if amount <= 0 {
            return Err(VaultError::NonPositiveAmount);
        }
        Ok(14 * LEDGERS_PER_DAY)
    }

    /// Claims a pending grant: refused when there is nothing to claim, else
    /// the grant is removed and moved into the balance. Returns the claimed
    /// amount and the new balance.
    pub fn claim(stored_grant: Option<i128>, stored_balance: Option<i128>) -> (r: Result<
        (i128, i128),
        VaultError,
    >)
        requires
            stored(stored_grant) == 0 || i128::MIN <= stored(stored_balance) + stored(stored_grant)
                <= i128::MAX,
        ensures
            match r {
                Ok((claimed, balance)) => after_claim(stored_grant, stored_balance) == Ok::<
                    (int, int),
                    VaultError,
                >((claimed as int, balance as int)),
                Err(e) => after_claim(stored_grant, stored_balance) == Err::<(int, int), VaultError>(e),
            },
            r is Ok <==> stored(stored_grant) != 0,
            r matches Ok((claimed, balance)) ==> claimed == stored(stored_grant) && balance
                == stored(stored_balance) + claimed,
            r is Err ==> r == Err::<(i128, i128), VaultError>(VaultError::NothingToClaim),
    {
        let amount = Vault::balance(stored_grant);
        if amount == 0 {
            return Err(VaultError::NothingToClaim);
        }
        Ok((amount, Vault::balance(stored_balance) + amount))
    }

    /// Records `nonce`: refused unless it is above the last recorded one
    /// (zero when none is recorded).
    pub fn consume_nonce(last: Option<u64>, nonce: u64) -> (r: Result<u64, VaultError>)
        ensures
            r == after_nonce(last, nonce),
    {
        let previous = match last {
            Some(l) => l,
            None => 0,
        };
        if nonce <= previous {
            return Err(VaultError::StaleNonce);
        }
        Ok(nonce)
    }
}

/// Balances never go negative: from a non-negative balance, every accepted
/// deposit and withdrawal, and every claim of a grant written by `grant`
/// (a positive amount), leaves a non-negative balance.
pub proof fn lemma_balances_stay_non_negative(
    balance: Option<i128>,
    amount: i128,
    grant: Option<i128>,
)
    requires
        stored(balance) >= 0,
        stored(grant) >= 0,
    ensures
        after_deposit(balance, amount) matches Ok(b) ==> b >= 0,
        after_withdraw(balance, amount) matches Ok(b) ==> b >= 0,
        after_claim(grant, balance) matches Ok((_, b)) ==> b >= 0,
{
}

/// A withdrawal never takes out more than the balance, and what it takes out
/// is exactly the amount asked for.
pub proof fn lemma_withdraw_is_exact(balance: Option<i128>, amount: i128)
    ensures
        after_withdraw(balance, amount) matches Ok(b) ==> b == stored(balance) - amount && amount
            <= stored(balance),
{
}

/// A claim moves the whole grant into the balance: it succeeds exactly when a
/// grant is pending, hands back the grant, and leaves the stored balance
/// (zero when none is stored) plus the grant, which is the balance a deposit
/// of the same positive amount leaves.
pub proof fn lemma_claim_adds_grant_to_balance(grant: Option<i128>, balance: Option<i128>)
    ensures
        after_claim(grant, balance) is Ok <==> stored(grant) != 0,
        after_claim(grant, balance) matches Ok((claimed, b)) ==> claimed == stored(grant) && b
            == stored(balance) + claimed,
        grant matches Some(g) ==> (g > 0 ==> (after_deposit(balance, g) matches Ok(d)
            && after_claim(grant, balance) == Ok::<(int, int), VaultError>((g as int, d)))),
{
}

/// A recorded nonce can never be replayed: once `nonce` is accepted and
/// recorded, consuming it again (or any smaller nonce) is refused.
pub proof fn lemma_nonce_replay_is_refused(last: Option<u64>, nonce: u64, again: u64)
    requires
        after_nonce(last, nonce) is Ok,
        again <= nonce,
    ensures
        after_nonce(Some(after_nonce(last, nonce)->Ok_0), again) == Err::<u64, VaultError>(
            VaultError::StaleNonce,
        ),
        nonce > last_nonce(last),
{
}

} // verus!
