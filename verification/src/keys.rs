//! Strkey decoding, keypair derivation and the ledger keys the tooling
//! watches and restores.
//!
//! `C...` strkeys name contracts, `G...` strkeys ed25519 accounts and `S...`
//! strkeys ed25519 signer secrets.

use vstd::prelude::*;
use ed25519_dalek::SigningKey;
use stellar_xdr::{
    ContractDataDurability, ContractId, Hash as XdrHash, LedgerKey as XdrKey, LedgerKeyContractCode,
    LedgerKeyContractData, Limits, ScAddress, ScVal, WriteXdr,
};
use crate::text::{concat, concat3};

verus! {

/// What a strkey decodes to, as far as the tooling tells kinds apart.
#[derive(Clone, Copy, Debug, PartialEq, Eq)]
pub enum StrkeyValue {
    /// A `G...` ed25519 public key.
    AccountEd25519([u8; 32]),
    /// A `C...` contract id.
    Contract([u8; 32]),
    /// A valid strkey of any other kind.
    OtherKind,
}

/// An ed25519 account id.
#[derive(Clone, Copy, Debug, PartialEq, Eq)]
pub struct AccountId {
    pub ed25519: [u8; 32],
}

/// The ledger keys the tooling builds itself.
#[derive(Clone, Copy, Debug, PartialEq, Eq)]
pub enum LedgerKey {
    /// The persistent contract-data entry holding a contract's instance.
    ContractInstance([u8; 32]),
    /// The contract-code entry of a wasm hash.
    ContractCode([u8; 32]),
}

/// What `stellar_strkey::Strkey::from_string` gives for a text: the decoded
/// strkey, or the text of its decoding error.
pub uninterp spec fn decoded_strkey(s: Seq<char>) -> Result<StrkeyValue, Seq<char>>;

/// What `stellar_strkey::ed25519::PublicKey(key)` renders as.
pub uninterp spec fn public_key_strkey(key: [u8; 32]) -> Seq<char>;

/// What `stellar_strkey::ed25519::PrivateKey::from_string` gives for a text:
/// the 32-byte secret seed, or the text of its decoding error.
pub uninterp spec fn decoded_secret(s: Seq<char>) -> Result<[u8; 32], Seq<char>>;

/// The ed25519 public key of a 32-byte secret seed.
pub uninterp spec fn ed25519_public(seed: [u8; 32]) -> [u8; 32];

/// The base64 XDR of a ledger key, or the text of the encoding error.
pub uninterp spec fn ledger_key_xdr(key: LedgerKey) -> Result<Seq<char>, Seq<char>>;

/// `stellar_strkey::Strkey::from_string`, telling apart the kinds the
/// tooling uses; the error is rendered with `Display`.
#[verifier::external_body]
fn parse_strkey(s: &str) -> (r: Result<StrkeyValue, String>)
    ensures
        match r {
            Ok(v) => decoded_strkey(s@) matches Ok(d) && d == v,
            Err(e) => decoded_strkey(s@) matches Err(d) && d == e@,
        },
{
    match stellar_strkey::Strkey::from_string(s) {
        Ok(stellar_strkey::Strkey::PublicKeyEd25519(pk)) => Ok(StrkeyValue::AccountEd25519(pk.0)),
        Ok(stellar_strkey::Strkey::Contract(c)) => Ok(StrkeyValue::Contract(c.0)),
        Ok(_) => Ok(StrkeyValue::OtherKind),
        Err(e) => Err(e.to_string()),
    }
}

/// Whether `Strkey::from_string` decodes `s` to the account key `key`.
pub open spec fn decodes_to_account(s: Seq<char>, key: [u8; 32]) -> bool {
    decoded_strkey(s) == Ok::<StrkeyValue, Seq<char>>(StrkeyValue::AccountEd25519(key))
}

/// `stellar_strkey::ed25519::PublicKey(key)` rendered with `Display`: a
/// 56-character `G...` strkey that `Strkey::from_string` decodes back to the
/// same key.
#[verifier::external_body]
fn render_public_key(key: [u8; 32]) -> (r: String)
    ensures
        r@ == public_key_strkey(key),
        r@.len() == 56,
        r@[0] == 'G',
        decodes_to_account(r@, key),
{
    format!("{}", stellar_strkey::ed25519::PublicKey(key))
}

/// `stellar_strkey::ed25519::PrivateKey::from_string`, keeping the seed;
/// the error is rendered with `Display`.
#[verifier::external_body]
fn parse_secret(s: &str) -> (r: Result<[u8; 32], String>)
    ensures
        match r {
            Ok(seed) => decoded_secret(s@) matches Ok(d) && d == seed,
            Err(e) => decoded_secret(s@) matches Err(d) && d == e@,
        },
{
    match stellar_strkey::ed25519::PrivateKey::from_string(s) {
        Ok(k) => Ok(k.0),
        Err(e) => Err(e.to_string()),
    }
}

/// `SigningKey::from_bytes(seed).verifying_key().to_bytes()`: the public key
/// of a secret seed.
#[verifier::external_body]
pub(crate) fn public_key_of(seed: [u8; 32]) -> (r: [u8; 32])
    ensures
        r == ed25519_public(seed),
{
    SigningKey::from_bytes(&seed).verifying_key().to_bytes()
}

/// The `stellar_xdr::LedgerKey` of a key, encoded with `to_xdr_base64`
/// without limits; the error is rendered with `Display`.
#[verifier::external_body]
fn encode_key(key: LedgerKey) -> (r: Result<String, String>)
    ensures
        match r {
            Ok(s) => ledger_key_xdr(key) matches Ok(d) && d == s@,
            Err(e) => ledger_key_xdr(key) matches Err(d) && d == e@,
        },
{
    let xdr_key = match key {
        LedgerKey::ContractInstance(id) => XdrKey::ContractData(LedgerKeyContractData {
            contract: ScAddress::Contract(ContractId(XdrHash(id))),
            key: ScVal::LedgerKeyContractInstance,
            durability: ContractDataDurability::Persistent,
        }),
        LedgerKey::ContractCode(h) => XdrKey::ContractCode(LedgerKeyContractCode { hash: XdrHash(h) }),
    };
    match xdr_key.to_xdr_base64(Limits::none()) {
        Ok(s) => Ok(s),
        Err(e) => Err(e.to_string()),
    }
}

pub open spec fn not_a_contract_message(s: Seq<char>) -> Seq<char> {
    s + " is not a contract id (`C...`) strkey"@
}

pub open spec fn invalid_contract_message(s: Seq<char>, e: Seq<char>) -> Seq<char> {
    "invalid contract id `"@ + s + "`: "@ + e
}

pub open spec fn not_an_account_message(s: Seq<char>) -> Seq<char> {
    s + " is not an account (`G...`) strkey"@
}

pub open spec fn invalid_account_message(s: Seq<char>, e: Seq<char>) -> Seq<char> {
    "invalid account id `"@ + s + "`: "@ + e
}

/// What `decode_contract_id` gives for a text.
pub open spec fn contract_id_of(s: Seq<char>) -> Result<[u8; 32], Seq<char>> {
    match decoded_strkey(s) {
        Ok(StrkeyValue::Contract(id)) => Ok(id),
        Ok(_) => Err(not_a_contract_message(s)),
        Err(e) => Err(invalid_contract_message(s, e)),
    }
}

/// What `decode_account_id` gives for a text.
pub open spec fn account_id_of(s: Seq<char>) -> Result<AccountId, Seq<char>> {
    match decoded_strkey(s) {
        Ok(StrkeyValue::AccountEd25519(k)) => Ok(AccountId { ed25519: k }),
        Ok(_) => Err(not_an_account_message(s)),
        Err(e) => Err(invalid_account_message(s, e)),
    }
}

/// Decodes a `C...` contract-id strkey into its 32 raw bytes; any other kind
/// of strkey, or an invalid one, is an error naming the input.
pub fn decode_contract_id(strkey: &str) -> (r: Result<[u8; 32], String>)
    ensures
        match r {
            Ok(id) => contract_id_of(strkey@) == Ok::<[u8; 32], Seq<char>>(id),
            Err(e) => contract_id_of(strkey@) == Err::<[u8; 32], Seq<char>>(e@),
        },
{
    match parse_strkey(strkey) {
        Ok(StrkeyValue::Contract(id)) => Ok(id),
        Ok(_) => {
            let msg = concat(strkey, " is not a contract id (`C...`) strkey");
            proof {
                reveal_strlit(" is not a contract id (`C...`) strkey");
            }
            Err(msg)
        },
        Err(e) => {
            let head = concat3("invalid contract id `", strkey, "`: ");
            let msg = concat(head.as_str(), e.as_str());
            proof {
                reveal_strlit("invalid contract id `");
                reveal_strlit("`: ");
            }
            Err(msg)
        },
    }
}

/// The `G...` strkey of an ed25519 account id; it decodes back to the same
/// account id.
pub fn account_strkey(account: &AccountId) -> (r: String)
    ensures
        r@ == public_key_strkey(account.ed25519),
        r@.len() == 56,
        r@[0] == 'G',
        account_id_of(r@) == Ok::<AccountId, Seq<char>>(*account),
{
    render_public_key(account.ed25519)
}

/// Decodes a `G...` account-id strkey; any other kind of strkey, or an
/// invalid one, is an error naming the input.
pub fn decode_account_id(strkey: &str) -> (r: Result<AccountId, String>)
    ensures
        match r {
            Ok(a) => account_id_of(strkey@) == Ok::<AccountId, Seq<char>>(a),
            Err(e) => account_id_of(strkey@) == Err::<AccountId, Seq<char>>(e@),
        },
{
    match parse_strkey(strkey) {
        Ok(StrkeyValue::AccountEd25519(k)) => Ok(AccountId { ed25519: k }),
        Ok(_) => {
            let msg = concat(strkey, " is not an account (`G...`) strkey");
            proof {
                reveal_strlit(" is not an account (`G...`) strkey");
            }
            Err(msg)
        },
        Err(e) => {
            let head = concat3("invalid account id `", strkey, "`: ");
            let msg = concat(head.as_str(), e.as_str());
            proof {
                reveal_strlit("invalid account id `");
                reveal_strlit("`: ");
            }
            Err(msg)
        },
    }
}

pub open spec fn not_a_secret_message() -> Seq<char> {
    "signer secret must be a private key (`S...`) strkey"@
}

pub open spec fn invalid_secret_message(e: Seq<char>) -> Seq<char> {
    "invalid signer secret: "@ + e
}

/// The account a signer secret controls, or the error: a valid strkey of
/// another kind is refused as not being a secret, anything else as invalid.
pub open spec fn secret_account(s: Seq<char>) -> Result<AccountId, Seq<char>> {
    match decoded_secret(s) {
        Ok(seed) => Ok(AccountId { ed25519: ed25519_public(seed) }),
        Err(e) => if decoded_strkey(s) is Ok {
            Err(not_a_secret_message())
        } else {
            Err(invalid_secret_message(e))
        },
    }
}

/// Derives the account id and the 32-byte signing seed from an `S...`
/// signer secret.
pub fn keypair_from_secret(secret: &str) -> (r: Result<(AccountId, [u8; 32]), String>)
    ensures
        match r {
            Ok((a, seed)) => secret_account(secret@) == Ok::<AccountId, Seq<char>>(a)
                && decoded_secret(secret@) == Ok::<[u8; 32], Seq<char>>(seed),
            Err(e) => secret_account(secret@) == Err::<AccountId, Seq<char>>(e@),
        },
{
    let seed = match parse_secret(secret) {
        Ok(seed) => seed,
        Err(e) => {
            match parse_strkey(secret) {
                Ok(_) => {
                    let msg = String::from_str("signer secret must be a private key (`S...`) strkey");
                    proof {
                        reveal_strlit("signer secret must be a private key (`S...`) strkey");
                    }
                    return Err(msg);
                },
                Err(_) => {
                    let msg = concat("invalid signer secret: ", e.as_str());
                    proof {
                        reveal_strlit("invalid signer secret: ");
                    }
                    return Err(msg);
                },
            }
        },
    };
    let account = AccountId { ed25519: public_key_of(seed) };
    Ok((account, seed))
}

/// The `G...` account that a given `S...` signer secret controls.
pub fn account_from_secret(secret: &str) -> (r: Result<AccountId, String>)
    ensures
        match r {
            Ok(a) => secret_account(secret@) == Ok::<AccountId, Seq<char>>(a),
            Err(e) => secret_account(secret@) == Err::<AccountId, Seq<char>>(e@),
        },
{
    match keypair_from_secret(secret) {
        Ok((account, _)) => Ok(account),
        Err(e) => Err(e),
    }
}

/// The ledger key of a contract's instance entry.
pub fn contract_instance_key(contract_id: [u8; 32]) -> (r: LedgerKey)
    ensures
        r == LedgerKey::ContractInstance(contract_id),
{
    LedgerKey::ContractInstance(contract_id)
}

/// The ledger key of a contract's wasm code entry.
pub fn contract_code_key(wasm_hash: [u8; 32]) -> (r: LedgerKey)
    ensures
        r == LedgerKey::ContractCode(wasm_hash),
{
    LedgerKey::ContractCode(wasm_hash)
}

/// Encodes a ledger key as base64 XDR.
pub fn encode_ledger_key(key: &LedgerKey) -> (r: Result<String, String>)
    ensures
        match r {
            Ok(s) => ledger_key_xdr(*key) == Ok::<Seq<char>, Seq<char>>(s@),
            Err(e) => ledger_key_xdr(*key) == Err::<Seq<char>, Seq<char>>(e@),
        },
{
    encode_key(*key)
}

pub open spec fn key_description(key: LedgerKey) -> Seq<char> {
    match key {
        LedgerKey::ContractInstance(_) => "contract instance"@,
        LedgerKey::ContractCode(_) => "contract code"@,
    }
}

/// A short human-readable description of a ledger key, for CLI output.
pub fn describe_key(key: &LedgerKey) -> (r: String)
    ensures
        r@ == key_description(*key),
{
    match key {
        LedgerKey::ContractInstance(_) => {
            proof {
                reveal_strlit("contract instance");
            }
            String::from_str("contract instance")
        },
        LedgerKey::ContractCode(_) => {
            proof {
                reveal_strlit("contract code");
            }
            String::from_str("contract code")
        },
    }
}

} // verus!
