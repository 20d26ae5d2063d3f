use soroban_storage::keys::{contract_code_key, contract_instance_key, encode_ledger_key};
use soroban_storage::ledger::{first_wasm_hash, instance_wasm_hash, key_sizes, snapshots_of, FetchedEntry};
use soroban_storage::rpc::WatchKey;
use stellar_xdr::{
    ContractDataDurability, ContractDataEntry, ContractExecutable, ContractId, ExtensionPoint, LedgerEntry,
    LedgerEntryData, LedgerEntryExt, Limits, ScAddress, ScContractInstance, ScVal, WriteXdr,
};

fn instance_entry(executable: ContractExecutable) -> String {
    let entry = LedgerEntry {
        last_modified_ledger_seq: 7,
        data: LedgerEntryData::ContractData(ContractDataEntry {
            ext: ExtensionPoint::V0,
            contract: ScAddress::Contract(ContractId(stellar_xdr::Hash([1u8; 32]))),
            key: ScVal::LedgerKeyContractInstance,
            durability: ContractDataDurability::Persistent,
            val: ScVal::ContractInstance(ScContractInstance { executable, storage: None }),
        }),
        ext: LedgerEntryExt::V0,
    };
    entry.to_xdr_base64(Limits::none()).unwrap()
}

fn data_entry() -> String {
    let entry = LedgerEntry {
        last_modified_ledger_seq: 7,
        data: LedgerEntryData::ContractData(ContractDataEntry {
            ext: ExtensionPoint::V0,
            contract: ScAddress::Contract(ContractId(stellar_xdr::Hash([1u8; 32]))),
            key: ScVal::U32(5),
            durability: ContractDataDurability::Persistent,
            val: ScVal::I128(stellar_xdr::Int128Parts { hi: 0, lo: 9 }),
        }),
        ext: LedgerEntryExt::V0,
    };
    entry.to_xdr_base64(Limits::none()).unwrap()
}

#[test]
fn the_wasm_hash_comes_from_the_instance_entry() {
    let wasm = instance_entry(ContractExecutable::Wasm(stellar_xdr::Hash([9u8; 32])));
    let asset = instance_entry(ContractExecutable::StellarAsset);
    assert_eq!(instance_wasm_hash(&vec![data_entry(), wasm.clone()]).unwrap(), Some([9u8; 32]));
    // The last instance decides for the keeper.
    assert_eq!(instance_wasm_hash(&vec![wasm.clone(), asset.clone()]).unwrap(), None);
    assert_eq!(instance_wasm_hash(&vec![]).unwrap(), None);
    // The first wasm hash decides for the planner.
    assert_eq!(first_wasm_hash(&vec![asset.clone(), wasm.clone()]).unwrap(), Some([9u8; 32]));
    assert_eq!(first_wasm_hash(&vec![data_entry()]).unwrap(), None);
    assert!(instance_wasm_hash(&vec![wasm.clone(), "!!".to_string()]).is_err());
    assert_eq!(first_wasm_hash(&vec![wasm, "!!".to_string()]).unwrap(), Some([9u8; 32]));
}

#[test]
fn snapshots_keep_entries_with_an_expiry() {
    let key = encode_ledger_key(&contract_instance_key([1u8; 32])).unwrap();
    let keys = vec![WatchKey { label: "instance".to_string(), key_xdr: key.clone() }];
    let entry = instance_entry(ContractExecutable::Wasm(stellar_xdr::Hash([9u8; 32])));
    let expected_size = base64_len(&entry);
    let fetched = vec![
        FetchedEntry { key_xdr: key.clone(), entry_xdr: entry.clone(), live_until_ledger: Some(5_000) },
        FetchedEntry { key_xdr: "other".to_string(), entry_xdr: entry.clone(), live_until_ledger: None },
        FetchedEntry { key_xdr: "unknown".to_string(), entry_xdr: data_entry(), live_until_ledger: Some(9) },
    ];
    let snaps = snapshots_of(&keys, &fetched).unwrap();
    assert_eq!(snaps.len(), 2);
    assert_eq!(snaps[0].label, "instance");
    assert_eq!(snaps[0].live_until_ledger, 5_000);
    assert_eq!(snaps[0].size_bytes as usize, expected_size);
    assert_eq!(snaps[1].label, "entry");
    // An entry without expiry is not decoded at all.
    let skipped = vec![FetchedEntry { key_xdr: key, entry_xdr: "!!".to_string(), live_until_ledger: None }];
    assert!(snaps_ok(&keys, &skipped));
}

fn snaps_ok(keys: &[WatchKey], fetched: &Vec<FetchedEntry>) -> bool {
    snapshots_of(keys, fetched).map(|v| v.is_empty()).unwrap_or(false)
}

fn base64_len(b64: &str) -> usize {
    let padding = b64.chars().rev().take_while(|c| *c == '=').count();
    b64.len() / 4 * 3 - padding
}

#[test]
fn key_sizes_are_their_encoded_lengths() {
    let instance = encode_ledger_key(&contract_instance_key([1u8; 32])).unwrap();
    let code = encode_ledger_key(&contract_code_key([2u8; 32])).unwrap();
    let sizes = key_sizes(&vec![instance.clone(), code.clone()]).unwrap();
    assert_eq!(sizes, vec![base64_len(&instance) as u32, base64_len(&code) as u32]);
    assert_eq!(sizes[1], 36);
    assert!(key_sizes(&vec![code, "!!".to_string()]).is_err());
}
