use soroban_storage::risk::{
    classify, ledgers_until_critical, plan_batches, should_extend, signer_balance_is_sufficient,
    ttl_remaining, BatchEntry, RiskLevel,
};

#[test]
fn ttl_remaining_is_saturating() {
    assert_eq!(ttl_remaining(100, 90), 10);
    assert_eq!(ttl_remaining(90, 100), 0);
    assert_eq!(ttl_remaining(90, 500), 0);
}

#[test]
fn classify_windows() {
    // threshold 172_800 (~10 days), extend_to 518_400 (~30 days)
    assert_eq!(classify(518_400, 172_800, 518_400), RiskLevel::Safe);
    assert_eq!(classify(500_000, 172_800, 518_400), RiskLevel::Watch);
    assert_eq!(classify(172_800, 172_800, 518_400), RiskLevel::Critical);
    assert_eq!(classify(10, 172_800, 518_400), RiskLevel::Critical);
    assert_eq!(classify(0, 172_800, 518_400), RiskLevel::Critical);
}

#[test]
fn should_extend_threshold_boundary() {
    assert!(should_extend(172_800, 172_800));
    assert!(should_extend(10, 172_800));
    assert!(!should_extend(172_801, 172_800));
}

#[test]
fn ledgers_until_critical_is_signed() {
    assert_eq!(ledgers_until_critical(200_000, 172_800), 27_200);
    assert_eq!(ledgers_until_critical(100_000, 172_800), -72_800);
}

#[test]
fn batches_respect_size_cap() {
    let entries: Vec<BatchEntry> = (0..5)
        .map(|i| BatchEntry {
            key_xdr: format!("key{i}"),
            size_bytes: 1_000,
        })
        .collect();
    // Cap of 2_500 → batches of [2, 2, 1].
    let batches = plan_batches(&entries, 2_500);
    assert_eq!(batches.len(), 3);
    assert_eq!(batches[0].len(), 2);
    assert_eq!(batches[1].len(), 2);
    assert_eq!(batches[2].len(), 1);
    // Total entries preserved.
    let total: usize = batches.iter().map(|b| b.len()).sum();
    assert_eq!(total, entries.len());
}

#[test]
fn single_entry_larger_than_cap_gets_its_own_batch() {
    let entries = vec![BatchEntry {
        key_xdr: "big".into(),
        size_bytes: 10_000,
    }];
    let batches = plan_batches(&entries, 2_500);
    assert_eq!(batches.len(), 1);
    assert_eq!(batches[0].len(), 1);
}

#[test]
fn empty_input_yields_no_batches() {
    assert!(plan_batches(&[], 10_000).is_empty());
}

#[test]
fn signer_balance_floor() {
    assert!(signer_balance_is_sufficient(10_000_000, 10_000_000));
    assert!(signer_balance_is_sufficient(1, 0));
    assert!(!signer_balance_is_sufficient(9_999_999, 10_000_000));
}

#[test]
fn risk_names_and_order() {
    assert_eq!(RiskLevel::Safe.as_str(), "safe");
    assert_eq!(RiskLevel::Watch.as_str(), "watch");
    assert_eq!(RiskLevel::Critical.as_str(), "critical");
    // A longer TTL is never riskier.
    assert_eq!(classify(172_801, 172_800, 518_400), RiskLevel::Watch);
}

#[test]
fn batches_keep_order_and_cut_before_overflow() {
    let sizes = [1_000u32, 1_500, 100, 2_500, 1];
    let entries: Vec<BatchEntry> = sizes
        .iter()
        .enumerate()
        .map(|(i, s)| BatchEntry {
            key_xdr: format!("k{i}"),
            size_bytes: *s,
        })
        .collect();
    let batches = plan_batches(&entries, 2_500);
    let keys: Vec<Vec<String>> = batches
        .iter()
        .map(|b| b.iter().map(|e| e.key_xdr.clone()).collect())
        .collect();
    assert_eq!(
        keys,
        vec![
            vec!["k0".to_string(), "k1".to_string()],
            vec!["k2".to_string()],
            vec!["k3".to_string()],
            vec!["k4".to_string()],
        ]
    );
}
