use soroban_storage::config::{
    default_extend_to, default_max_batch_bytes, default_metrics_addr,
    default_min_signer_balance_stroops, default_poll_interval_secs, default_threshold,
    ledgers_between_polls, Config, ContractConfig,
};

fn contract(threshold: u32, extend_to: u32, data_keys: Vec<String>) -> ContractConfig {
    ContractConfig {
        contract_id: "C".to_string(),
        threshold_ledgers: threshold,
        extend_to_ledgers: extend_to,
        data_keys,
    }
}

/// A configuration as the loader fills it: every field the file leaves out
/// takes its default.
fn config(contracts: Vec<ContractConfig>) -> Config {
    Config {
        rpc_url: "https://rpc".to_string(),
        network_passphrase: "Test".to_string(),
        signer_secret: "S".to_string(),
        metrics_addr: default_metrics_addr(),
        max_batch_bytes: default_max_batch_bytes(),
        poll_interval_secs: default_poll_interval_secs(),
        allow_short_threshold: false,
        min_signer_balance_stroops: default_min_signer_balance_stroops(),
        contracts,
    }
}

#[test]
fn parses_full_config() {
    let cfg = config(vec![contract(100, 500, vec!["AAAA".to_string()])]);
    assert_eq!(cfg.contracts[0].extend_to_ledgers, 500);
    assert_eq!(cfg.metrics_addr, "127.0.0.1:9090");
    assert_eq!(cfg.poll_interval_secs, 600);
}

#[test]
fn rejects_inverted_policy() {
    let cfg = config(vec![contract(500, 100, vec![])]);
    assert!(cfg.validate().is_err());
}

#[test]
fn requires_at_least_one_contract() {
    let cfg = config(vec![]);
    assert!(cfg.validate().is_err());
}

#[test]
fn defaults_match_the_documented_values() {
    assert_eq!(default_threshold(), 172_800);
    assert_eq!(default_extend_to(), 518_400);
    assert_eq!(default_max_batch_bytes(), 200_000);
    assert_eq!(default_min_signer_balance_stroops(), 10_000_000);
    // 600 s at ~5 s per ledger.
    assert_eq!(ledgers_between_polls(600), 120);
    assert_eq!(ledgers_between_polls(7), 2);
}

#[test]
fn validation_errors_name_the_problem() {
    let inverted = config(vec![contract(500, 100, vec![])]);
    assert_eq!(
        inverted.validate(),
        Err("contract C: threshold_ledgers (500) must be < extend_to_ledgers (100)".to_string())
    );
    assert_eq!(
        config(vec![]).validate(),
        Err("at least one contract is required".to_string())
    );
    let short = config(vec![contract(100, 500, vec![])]);
    assert_eq!(
        short.validate(),
        Err("contract C: threshold_ledgers (100) is below the ~120 ledgers that close between polls (poll_interval_secs 600); raise it or set allow_short_threshold".to_string())
    );
    let mut allowed = config(vec![contract(100, 500, vec![])]);
    allowed.allow_short_threshold = true;
    assert_eq!(allowed.validate(), Ok(()));
    let mut no_url = config(vec![contract(1_000, 5_000, vec![])]);
    no_url.rpc_url = String::new();
    assert_eq!(no_url.validate(), Err("rpc_url is required".to_string()));
    let good = config(vec![contract(default_threshold(), default_extend_to(), vec![])]);
    assert_eq!(good.validate(), Ok(()));
}
