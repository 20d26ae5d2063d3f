use soroban_storage::config::ContractConfig;
use soroban_storage::keeper::{
    check_configured_network, extension_outcome, footprint_read_bytes, is_transient, plan_watch,
    size_or_estimate,
    poll_report, watch_config, Delay, RetryPolicy, WatchConfig,
};
use soroban_storage::keys::decode_contract_id;
use soroban_storage::rpc::{EntrySnapshot, ExtendOutcome, WatchKey};

#[test]
fn backoff_doubles_and_is_capped() {
    let policy = RetryPolicy {
        max_attempts: 6,
        base_delay: Delay::from_millis(100),
        max_delay: Delay::from_millis(500),
    };
    assert_eq!(policy.delay_for(1), Delay::from_millis(100));
    assert_eq!(policy.delay_for(2), Delay::from_millis(200));
    assert_eq!(policy.delay_for(3), Delay::from_millis(400));
    // Capped from the fourth retry on.
    assert_eq!(policy.delay_for(4), Delay::from_millis(500));
    assert_eq!(policy.delay_for(50), Delay::from_millis(500));
}

#[test]
fn retries_exclude_the_first_attempt() {
    let policy = RetryPolicy {
        max_attempts: 3,
        ..RetryPolicy::default()
    };
    assert_eq!(policy.retries(), 2);
    let single = RetryPolicy {
        max_attempts: 1,
        ..RetryPolicy::default()
    };
    assert_eq!(single.retries(), 0);
}

#[test]
fn classifies_transient_errors() {
    assert!(is_transient("request timeout"));
    assert!(is_transient("connection reset by peer"));
    assert!(is_transient("HTTP 503 Service Unavailable"));
    assert!(is_transient("too many requests"));
    assert!(!is_transient("simulation failed: insufficient footprint"));
    assert!(!is_transient("invalid ledger key"));
}

#[test]
fn default_retry_policy_and_retry_decisions() {
    let policy = RetryPolicy::default();
    assert_eq!(policy.max_attempts, 3);
    assert_eq!(policy.base_delay, Delay::from_millis(200));
    assert_eq!(policy.max_delay, Delay::from_secs(5));
    assert_eq!(policy.base_delay.as_nanos(), 200_000_000);
    // Transient errors are retried until the retries are used up.
    assert_eq!(policy.next_attempt(0, "Connection refused"), Some(1));
    assert_eq!(policy.next_attempt(1, "HTTP 429"), Some(2));
    assert_eq!(policy.next_attempt(2, "HTTP 429"), None);
    // Permanent errors are never retried.
    assert_eq!(policy.next_attempt(0, "invalid ledger key"), None);
}

fn watch() -> WatchConfig {
    WatchConfig {
        label: "C1".to_string(),
        threshold_ledgers: 100,
        extend_to_ledgers: 1_000,
        keys: vec![],
    }
}

fn snapshot(key: &str, live_until: u32, size: u32) -> EntrySnapshot {
    EntrySnapshot {
        label: key.to_string(),
        key_xdr: key.to_string(),
        live_until_ledger: live_until,
        size_bytes: size,
    }
}

#[test]
fn only_entries_at_or_below_the_threshold_are_extended() {
    let snaps = vec![
        snapshot("a", 1_050, 300), // ttl 50: critical
        snapshot("b", 1_100, 300), // ttl 100: critical (boundary)
        snapshot("c", 1_500, 300), // ttl 500: watch
        snapshot("d", 2_000, 300), // ttl 1000: safe
    ];
    let plan = plan_watch(&watch(), 1_000, &snaps, 10_000);
    assert_eq!(plan.checked, 4);
    assert_eq!(plan.ttls, vec![50, 100, 500, 1_000]);
    assert_eq!(plan.critical, 2);
    assert_eq!(plan.batches.len(), 1);
    let keys: Vec<&str> = plan.batches[0].iter().map(|e| e.key_xdr.as_str()).collect();
    assert_eq!(keys, vec!["a", "b"]);
}

#[test]
fn no_live_entries_plan_nothing() {
    let plan = plan_watch(&watch(), 1_000, &[], 10_000);
    assert_eq!(plan.checked, 0);
    assert_eq!(plan.critical, 0);
    assert!(plan.batches.is_empty());
    let report = poll_report(&watch(), &plan, &[]);
    assert_eq!(report.watch, "C1");
    assert_eq!(report.extended_batches, 0);
    assert_eq!(report.submitted, 0);
}

#[test]
fn poll_report_counts_accepted_batches() {
    let snaps = vec![snapshot("a", 1_010, 600), snapshot("b", 1_020, 600)];
    let plan = plan_watch(&watch(), 1_000, &snaps, 1_000);
    assert_eq!(plan.batches.len(), 2);
    let outcomes = vec![
        Ok(ExtendOutcome::Submitted { tx_hash: "h".to_string() }),
        Err("boom".to_string()),
    ];
    let report = poll_report(&watch(), &plan, &outcomes);
    assert_eq!(report.checked, 2);
    assert_eq!(report.critical, 2);
    assert_eq!(report.extended_batches, 2);
    assert_eq!(report.submitted, 1);
}

#[test]
fn extension_outcomes() {
    assert_eq!(
        extension_outcome("SUCCESS", Some("abc".to_string())),
        Ok(ExtendOutcome::Submitted { tx_hash: "abc".to_string() })
    );
    assert_eq!(
        extension_outcome("SUCCESS", None),
        Ok(ExtendOutcome::Submitted { tx_hash: "unknown".to_string() })
    );
    assert_eq!(
        extension_outcome("FAILED", None),
        Err("extension transaction failed with status `FAILED`".to_string())
    );
}

#[test]
fn configured_network_must_match() {
    assert_eq!(check_configured_network("Test", "Test"), Ok(()));
    assert_eq!(
        check_configured_network("Public", "Test"),
        Err("network passphrase mismatch: RPC says `Public`, config says `Test`".to_string())
    );
}

#[test]
fn footprint_bytes_are_summed() {
    assert_eq!(footprint_read_bytes(&vec![]), 0);
    assert_eq!(footprint_read_bytes(&vec![48, 52, 300]), 400);
}

#[test]
fn watch_config_lists_instance_code_and_data_keys() {
    let id = [7u8; 32];
    let strkey = stellar_strkey::Contract(id).to_string();
    assert_eq!(decode_contract_id(&strkey).unwrap(), id);
    let cc = ContractConfig {
        contract_id: strkey.to_string(),
        threshold_ledgers: 100,
        extend_to_ledgers: 500,
        data_keys: vec!["AAAA".to_string()],
    };
    let w = watch_config(&cc, Some([2u8; 32])).unwrap();
    assert_eq!(w.label, strkey.to_string());
    assert_eq!(w.threshold_ledgers, 100);
    assert_eq!(w.extend_to_ledgers, 500);
    let labels: Vec<&str> = w.keys.iter().map(|k: &WatchKey| k.label.as_str()).collect();
    assert_eq!(labels, vec!["instance", "code", "data:0"]);
    assert_eq!(w.keys[2].key_xdr, "AAAA");

    let err = watch_config(&cc, None).unwrap_err();
    assert_eq!(
        err,
        format!("{strkey}: could not resolve wasm hash from the contract instance (is the contract deployed?)")
    );
}

#[test]
fn extension_transactions_stay_valid_briefly() {
    let w = soroban_storage::keeper::extension_validity(1_000, 1_700_000_000);
    assert_eq!((w.min_ledger, w.max_ledger, w.max_time), (1_000, 1_200, 1_700_000_300));
}

#[test]
fn watch_config_needs_a_contract_id() {
    let cc = ContractConfig {
        contract_id: "bogus".to_string(),
        threshold_ledgers: 100,
        extend_to_ledgers: 500,
        data_keys: vec![],
    };
    assert!(watch_config(&cc, Some([2u8; 32]))
        .unwrap_err()
        .starts_with("invalid contract id `bogus`: "));
}

#[test]
fn transience_ignores_ascii_case() {
    for e in ["Request TIMEOUT", "Broken Pipe", "EOF while reading", "invalid ledger key", "Rate Limit hit"] {
        assert_eq!(is_transient(&e.to_ascii_uppercase()), is_transient(e));
        assert_eq!(is_transient(&e.to_ascii_lowercase()), is_transient(e));
    }
    assert!(is_transient("BROKEN PIPE"));
    assert!(!is_transient("INVALID LEDGER KEY"));
    assert!(!is_transient(""));
}

#[test]
fn unencodable_entries_are_estimated_at_300_bytes() {
    assert_eq!(size_or_estimate(Some(128)), 128);
    assert_eq!(size_or_estimate(None), 300);
}
