use ed25519_dalek::{Signature, SigningKey, Verifier};
use sha2::{Digest, Sha256};
use soroban_storage::keys::{contract_code_key, contract_instance_key, encode_ledger_key, AccountId};
use soroban_storage::restore::{Candidate, ValidityWindow};
use soroban_storage::transaction::{
    decode_resources, encode_transaction, extension_final, extension_probe, restore_final, restore_probe,
    sign_transaction, unsigned_envelope, TxOperation,
};
use stellar_xdr::{
    Limits, OperationBody, Preconditions, ReadXdr, TransactionEnvelope, TransactionExt,
    TransactionSignaturePayload, TransactionSignaturePayloadTaggedTransaction, WriteXdr,
};

fn candidates() -> Vec<Candidate> {
    vec![
        Candidate {
            label: "instance".to_string(),
            key_xdr: encode_ledger_key(&contract_instance_key([1u8; 32])).unwrap(),
        },
        Candidate { label: "code".to_string(), key_xdr: encode_ledger_key(&contract_code_key([2u8; 32])).unwrap() },
    ]
}

fn source() -> AccountId {
    AccountId { ed25519: [7u8; 32] }
}

#[test]
fn the_probe_restores_every_candidate() {
    let cs = candidates();
    let probe = restore_probe(source(), 42, 1_000, 1_700_000_000, &cs);
    assert_eq!(probe.seq_num, 42);
    assert_eq!(probe.fee, 100);
    assert_eq!(probe.operation, TxOperation::RestoreFootprint);
    assert_eq!(probe.window, ValidityWindow { min_ledger: 1_000, max_ledger: 2_000, max_time: 1_700_003_600 });
    assert_eq!(probe.resources.read_write, vec![cs[0].key_xdr.clone(), cs[1].key_xdr.clone()]);
    assert!(probe.resources.read_only.is_empty());

    let tx_xdr = encode_transaction(&probe).unwrap();
    let tx = stellar_xdr::Transaction::from_xdr_base64(&tx_xdr, Limits::none()).unwrap();
    assert_eq!(tx.fee, 100);
    assert_eq!(tx.seq_num.0, 42);
    assert!(matches!(tx.operations[0].body, OperationBody::RestoreFootprint(_)));
    match &tx.cond {
        Preconditions::V2(p) => {
            assert_eq!(p.time_bounds.as_ref().unwrap().max_time.0, 1_700_003_600);
            assert_eq!(p.ledger_bounds.as_ref().unwrap().max_ledger, 2_000);
        }
        _ => panic!("expected V2 preconditions"),
    }
    match &tx.ext {
        TransactionExt::V1(data) => {
            let rw: Vec<String> = data
                .resources
                .footprint
                .read_write
                .iter()
                .map(|k| k.to_xdr_base64(Limits::none()).unwrap())
                .collect();
            assert_eq!(rw, vec![cs[0].key_xdr.clone(), cs[1].key_xdr.clone()]);
        }
        _ => panic!("expected Soroban data"),
    }

    let envelope = TransactionEnvelope::from_xdr_base64(&unsigned_envelope(&probe).unwrap(), Limits::none()).unwrap();
    match envelope {
        TransactionEnvelope::Tx(e) => {
            assert!(e.signatures.is_empty());
            assert_eq!(e.tx, tx);
        }
        _ => panic!("expected a V1 envelope"),
    }
}

#[test]
fn the_final_transaction_carries_the_simulated_resources() {
    let cs = candidates();
    let probe = restore_probe(source(), 9, 50, 1_000, &cs);
    let data_xdr = match stellar_xdr::Transaction::from_xdr_base64(&encode_transaction(&probe).unwrap(), Limits::none())
        .unwrap()
        .ext
    {
        TransactionExt::V1(mut data) => {
            data.resources.instructions = 1_234;
            data.resources.disk_read_bytes = 512;
            data.to_xdr_base64(Limits::none()).unwrap()
        }
        _ => panic!("expected Soroban data"),
    };
    let simulated = decode_resources(&data_xdr).unwrap();
    assert_eq!(simulated.instructions, 1_234);
    assert_eq!(simulated.disk_read_bytes, 512);
    assert_eq!(simulated.read_write, vec![cs[0].key_xdr.clone(), cs[1].key_xdr.clone()]);
    let plan = restore_final(source(), 9, 50, 1_000, &simulated, 5_000);
    assert_eq!(plan.fee, 5_100);
    assert_eq!(plan.resources.resource_fee, 5_000);
    assert_eq!(plan.resources.instructions, 1_234);
    assert!(decode_resources("not xdr").is_err());
}

#[test]
fn signing_covers_the_network_payload() {
    let cs = candidates();
    let seed = [3u8; 32];
    let key = SigningKey::from_bytes(&seed);
    let plan = restore_probe(AccountId { ed25519: key.verifying_key().to_bytes() }, 1, 10, 20, &cs);
    let passphrase = "Test SDF Network ; September 2015";
    let signed = sign_transaction(&plan, seed, passphrase).unwrap();
    let envelope = match TransactionEnvelope::from_xdr_base64(&signed, Limits::none()).unwrap() {
        TransactionEnvelope::Tx(e) => e,
        _ => panic!("expected a V1 envelope"),
    };
    assert_eq!(envelope.signatures.len(), 1);
    let sig = &envelope.signatures[0];
    assert_eq!(sig.hint.0, key.verifying_key().to_bytes()[..4]);
    let payload = TransactionSignaturePayload {
        network_id: stellar_xdr::Hash(Sha256::digest(passphrase.as_bytes()).into()),
        tagged_transaction: TransactionSignaturePayloadTaggedTransaction::Tx(envelope.tx.clone()),
    };
    let hash: [u8; 32] = Sha256::digest(payload.to_xdr(Limits::none()).unwrap()).into();
    let signature = Signature::from_slice(sig.signature.as_slice()).unwrap();
    assert!(key.verifying_key().verify(&hash, &signature).is_ok());
}

#[test]
fn extensions_read_their_keys_only() {
    let keys: Vec<String> = candidates().into_iter().map(|c| c.key_xdr).collect();
    let probe = extension_probe(source(), 5, 100, 200, &keys, 96, 518_400);
    assert_eq!(probe.operation, TxOperation::ExtendFootprintTtl(518_400));
    assert_eq!(probe.window, ValidityWindow { min_ledger: 100, max_ledger: 300, max_time: 500 });
    assert_eq!(probe.resources.read_only, keys);
    assert!(probe.resources.read_write.is_empty());
    assert_eq!(probe.resources.disk_read_bytes, 96);
    let tx = stellar_xdr::Transaction::from_xdr_base64(&encode_transaction(&probe).unwrap(), Limits::none()).unwrap();
    match &tx.operations[0].body {
        OperationBody::ExtendFootprintTtl(op) => assert_eq!(op.extend_to, 518_400),
        _ => panic!("expected an extension"),
    }
    let plan = extension_final(source(), 5, 100, 200, 518_400, &probe.resources, u64::MAX - 100);
    assert_eq!(plan.fee, u32::MAX);
    assert_eq!(plan.resources.resource_fee, i64::MAX);
}
