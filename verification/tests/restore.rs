use soroban_storage::keys::{
    account_strkey, contract_code_key, contract_instance_key, encode_ledger_key, AccountId,
};
use soroban_storage::restore::{
    check_network, data_label, decode_hex32, has_code_candidate, next_sequence, resolve_source, restore_candidates, select_archived, submission_result, transaction_fees,
    Candidate,
};

fn candidate(label: &str, key_xdr: String) -> Candidate {
    Candidate {
        label: label.to_string(),
        key_xdr,
    }
}

fn candidates() -> Vec<Candidate> {
    vec![
        candidate("instance", encode_ledger_key(&contract_instance_key([1u8; 32])).unwrap()),
        candidate("code", encode_ledger_key(&contract_code_key([2u8; 32])).unwrap()),
    ]
}

#[test]
fn archived_subset_keeps_only_reported_keys() {
    let all = candidates();
    // Only the code entry is archived.
    let archived = select_archived(&all, &vec![all[1].key_xdr.clone()]);
    assert_eq!(archived.len(), 1);
    assert_eq!(archived[0].label, "code");
    // A 5_000-stroop resource fee gives a 5_100-stroop transaction fee.
    assert_eq!(transaction_fees(5_000), (5_100, 5_000));
}

#[test]
fn nothing_archived_keeps_no_candidate() {
    let all = candidates();
    assert!(select_archived(&all, &vec![]).is_empty());
    assert_eq!(all.len(), 2);
}

#[test]
fn fees_saturate() {
    assert_eq!(transaction_fees(0), (100, 0));
    assert_eq!(transaction_fees(u32::MAX as u64), (u32::MAX, u32::MAX as i64));
    assert_eq!(transaction_fees(u64::MAX - 100), (u32::MAX, i64::MAX));
}

#[test]
fn candidates_list_instance_code_and_data_keys() {
    let keys = vec!["AAAA".to_string(), "BBBB".to_string()];
    let cs = restore_candidates([1u8; 32], &keys, Some([2u8; 32])).unwrap();
    let labels: Vec<&str> = cs.iter().map(|c| c.label.as_str()).collect();
    assert_eq!(labels, vec!["instance", "code", "data:0", "data:1"]);
    assert_eq!(cs[0].key_xdr, candidates()[0].key_xdr);
    assert_eq!(cs[1].key_xdr, candidates()[1].key_xdr);
    assert_eq!(cs[3].key_xdr, "BBBB");
    assert!(has_code_candidate(&cs));

    let without_code = restore_candidates([1u8; 32], &vec![], None).unwrap();
    assert_eq!(without_code.len(), 1);
    assert!(!has_code_candidate(&without_code));
    assert_eq!(data_label(12), "data:12");
}

#[test]
fn decodes_hex_wasm_hashes() {
    let hex = "00ff10".to_string() + &"ab".repeat(29);
    let bytes = decode_hex32(&hex).unwrap();
    assert_eq!(bytes[0], 0x00);
    assert_eq!(bytes[1], 0xff);
    assert_eq!(bytes[2], 0x10);
    assert_eq!(bytes[31], 0xab);
    assert_eq!(decode_hex32(&"AB".repeat(32)).unwrap(), [0xab; 32]);
    // Only hexadecimal digits are accepted: no sign, no other character.
    assert_eq!(
        decode_hex32(&"+f".repeat(32)).unwrap_err(),
        "invalid hex in wasm hash: invalid digit found in string"
    );
    assert_eq!(
        decode_hex32(&"+1".repeat(32)).unwrap_err(),
        "invalid hex in wasm hash: invalid digit found in string"
    );
    assert_eq!(
        decode_hex32("abc").unwrap_err(),
        "expected 64 hex characters, got 3"
    );
    assert_eq!(
        decode_hex32(&"zz".repeat(32)).unwrap_err(),
        "invalid hex in wasm hash: invalid digit found in string"
    );
    // 64 bytes that are not ASCII: an error, not a panic.
    let split = "a".to_string() + &"é".repeat(31) + "a";
    assert_eq!(split.len(), 64);
    assert_eq!(
        decode_hex32(&split).unwrap_err(),
        "invalid hex in wasm hash: invalid digit found in string"
    );
}

#[test]
fn source_resolution_prefers_the_signer() {
    let account = AccountId { ed25519: [4u8; 32] };
    let g = account_strkey(&account);
    assert_eq!(resolve_source(None, Some(&g)).unwrap(), account);
    assert_eq!(
        resolve_source(None, None).unwrap_err(),
        "--source (or config source) is required"
    );
    let secret = format!("{}", stellar_strkey::Unredacted(stellar_strkey::ed25519::PrivateKey([11u8; 32])));
    let from_secret = resolve_source(Some(&secret), Some(&g)).unwrap();
    assert_ne!(from_secret, account);
}

#[test]
fn network_and_submission_checks() {
    assert_eq!(check_network("Test", "Test"), Ok(()));
    assert_eq!(
        check_network("Public", "Test"),
        Err("network passphrase mismatch: RPC says `Public`, expected `Test`".to_string())
    );
    assert_eq!(
        submission_result("restore", "SUCCESS", Some("deadbeef".to_string())),
        Ok("deadbeef".to_string())
    );
    assert_eq!(
        submission_result("restore", "ERROR", None),
        Err("restore transaction failed with status `ERROR`".to_string())
    );
}

#[test]
fn restore_transactions_stay_valid_for_an_hour_and_a_thousand_ledgers() {
    let w = soroban_storage::restore::restore_validity(1_000, 1_700_000_000);
    assert_eq!(w.min_ledger, 1_000);
    assert_eq!(w.max_ledger, 2_000);
    assert_eq!(w.max_time, 1_700_003_600);
}

#[test]
fn transactions_use_the_next_sequence_number() {
    assert_eq!(next_sequence(41), 42);
    assert_eq!(next_sequence(0), 1);
    assert_eq!(next_sequence(i64::MAX - 1), i64::MAX);
}
