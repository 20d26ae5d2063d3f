use soroban_storage::keys::{
    account_from_secret, account_strkey, contract_code_key, contract_instance_key,
    decode_account_id, decode_contract_id, describe_key, encode_ledger_key, keypair_from_secret,
    AccountId,
};
use stellar_xdr::{Limits, ReadXdr};

fn sample_contract() -> [u8; 32] {
    [7u8; 32]
}

fn xdr_instance_key(id: [u8; 32]) -> stellar_xdr::LedgerKey {
    stellar_xdr::LedgerKey::ContractData(stellar_xdr::LedgerKeyContractData {
        contract: stellar_xdr::ScAddress::Contract(stellar_xdr::ContractId(stellar_xdr::Hash(id))),
        key: stellar_xdr::ScVal::LedgerKeyContractInstance,
        durability: stellar_xdr::ContractDataDurability::Persistent,
    })
}

fn secret_strkey(seed: [u8; 32]) -> String {
    format!("{}", stellar_strkey::Unredacted(stellar_strkey::ed25519::PrivateKey(seed)))
}

#[test]
fn decodes_contract_strkey() {
    let id = sample_contract();
    let strkey = stellar_strkey::Contract(id).to_string();
    assert_eq!(decode_contract_id(&strkey).unwrap(), id);
}

#[test]
fn rejects_non_contract_strkey() {
    // An ed25519 public key is a valid strkey but not a contract id.
    let account = stellar_strkey::ed25519::PublicKey([1u8; 32]).to_string();
    assert!(decode_contract_id(&account).is_err());
    assert!(decode_contract_id("not-a-strkey").is_err());
}

#[test]
fn contract_id_errors_name_the_input() {
    let account = stellar_strkey::ed25519::PublicKey([1u8; 32]).to_string();
    assert_eq!(
        decode_contract_id(&account).unwrap_err(),
        format!("{account} is not a contract id (`C...`) strkey")
    );
    assert!(decode_contract_id("not-a-strkey")
        .unwrap_err()
        .starts_with("invalid contract id `not-a-strkey`: "));
}

#[test]
fn instance_key_roundtrips_through_base64() {
    let key = contract_instance_key(sample_contract());
    let encoded = encode_ledger_key(&key).unwrap();
    let decoded = stellar_xdr::LedgerKey::from_xdr_base64(&encoded, Limits::none()).unwrap();
    assert_eq!(decoded, xdr_instance_key(sample_contract()));
}

#[test]
fn code_key_describes_itself() {
    let key = contract_code_key([9u8; 32]);
    assert_eq!(describe_key(&key), "contract code");
    let encoded = encode_ledger_key(&key).unwrap();
    let decoded = stellar_xdr::LedgerKey::from_xdr_base64(&encoded, Limits::none()).unwrap();
    assert_eq!(
        decoded,
        stellar_xdr::LedgerKey::ContractCode(stellar_xdr::LedgerKeyContractCode {
            hash: stellar_xdr::Hash([9u8; 32]),
        })
    );
}

#[test]
fn instance_key_describes_itself() {
    let key = contract_instance_key(sample_contract());
    assert_eq!(describe_key(&key), "contract instance");
}

#[test]
fn account_strkey_is_a_g_address() {
    let account = AccountId { ed25519: [3u8; 32] };
    let s = account_strkey(&account);
    assert!(s.starts_with('G'));
    assert_eq!(s.len(), 56);
}

#[test]
fn account_id_roundtrips() {
    let account = AccountId { ed25519: [3u8; 32] };
    assert_eq!(decode_account_id(&account_strkey(&account)).unwrap(), account);
}

#[test]
fn rejects_contract_strkey_as_account() {
    let contract = stellar_strkey::Contract([1u8; 32]).to_string();
    assert!(decode_account_id(&contract).is_err());
    assert_eq!(
        decode_account_id(&contract).unwrap_err(),
        format!("{contract} is not an account (`G...`) strkey")
    );
}

#[test]
fn secret_roundtrips_to_the_same_account() {
    let secret = secret_strkey([11u8; 32]);
    let (account, seed) = keypair_from_secret(&secret).unwrap();
    assert_eq!(seed, [11u8; 32]);
    assert_eq!(account_from_secret(&secret).unwrap(), account);
    // The account is the ed25519 public key of the secret seed.
    let expected = ed25519_dalek::SigningKey::from_bytes(&[11u8; 32])
        .verifying_key()
        .to_bytes();
    assert_eq!(account.ed25519, expected);
}

#[test]
fn rejects_non_secret_strkey() {
    let public = stellar_strkey::ed25519::PublicKey([1u8; 32]).to_string();
    assert!(keypair_from_secret(&public).is_err());
    assert!(keypair_from_secret("nope").is_err());
    assert_eq!(
        account_from_secret(&public).unwrap_err(),
        "signer secret must be a private key (`S...`) strkey"
    );
    assert!(account_from_secret("nope")
        .unwrap_err()
        .starts_with("invalid signer secret: "));
}
