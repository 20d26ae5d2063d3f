use soroban_storage::lifecycle::Lifecycle;
use soroban_storage::ttl::{TtlPolicy, LEDGERS_PER_DAY};
use soroban_storage::vault::{Vault, VaultError};

#[test]
fn deposit_withdraw_balance() {
    let mut stored: Option<i128> = None;
    assert_eq!(Vault::balance(stored), 0);

    stored = Some(Vault::deposit(stored, 1000).unwrap());
    stored = Some(Vault::deposit(stored, 500).unwrap());
    assert_eq!(Vault::balance(stored), 1500);

    stored = Some(Vault::withdraw(stored, 400).unwrap());
    assert_eq!(Vault::balance(stored), 1100);

    // Deposits auto-extend the balance TTL to the 30-day policy target.
    let ext = soroban_storage::ops::set(Lifecycle::Persistent, &TtlPolicy::days(7, 30), true).unwrap();
    assert!(ext.extend_to >= 500_000);
}

#[test]
fn grant_expires_and_claim_moves_funds() {
    let ttl = Vault::grant(250).unwrap();
    let fourteen_days = 14 * LEDGERS_PER_DAY;
    assert!(ttl >= fourteen_days - 10 && ttl <= fourteen_days + 10);

    let grant: Option<i128> = Some(250);
    let (claimed, balance) = Vault::claim(grant, None).unwrap();
    assert_eq!(claimed, 250);
    assert_eq!(Vault::balance(Some(balance)), 250);
    // The grant is removed once claimed: nothing is left to claim.
    assert_eq!(Vault::claim(None, Some(balance)), Err(VaultError::NothingToClaim));
}

#[test]
fn nonce_rejects_stale_values() {
    let mut last: Option<u64> = None;
    last = Some(Vault::consume_nonce(last, 1).unwrap());
    last = Some(Vault::consume_nonce(last, 2).unwrap());
    last = Some(Vault::consume_nonce(last, 5).unwrap());
    assert_eq!(Vault::consume_nonce(last, 4), Err(VaultError::StaleNonce));
    assert_eq!(Vault::consume_nonce(last, 5), Err(VaultError::StaleNonce));
    assert_eq!(Vault::consume_nonce(None, 0), Err(VaultError::StaleNonce));
}

#[test]
fn withdraw_beyond_balance_is_refused() {
    assert_eq!(Vault::withdraw(None, 1), Err(VaultError::InsufficientBalance));
    assert_eq!(Vault::withdraw(Some(10), 11), Err(VaultError::InsufficientBalance));
    assert_eq!(Vault::withdraw(Some(10), 10), Ok(0));
}

#[test]
fn non_positive_amounts_are_refused() {
    assert_eq!(Vault::deposit(Some(5), 0), Err(VaultError::NonPositiveAmount));
    assert_eq!(Vault::withdraw(Some(5), -1), Err(VaultError::NonPositiveAmount));
    assert_eq!(Vault::grant(0), Err(VaultError::NonPositiveAmount));
    assert_eq!(Vault::grant(1), Ok(241_920));
}
