//! Soroban transactions with one operation, as the restore planner and the
//! rent keeper build them: a plan of plain values, its XDR encoding, and its
//! signed or unsigned envelope.
//!
//! The planner first sends a probe `RestoreFootprintOp` whose read-write
//! footprint holds every candidate, then rebuilds the transaction from the
//! resources the network simulated; the keeper does the same with an
//! `ExtendFootprintTtlOp` over a read-only footprint.

use vstd::prelude::*;
use vstd::string::StringSliceAdditionalSpecFns;
use ed25519_dalek::{Signer, SigningKey};
use sha2::{Digest, Sha256};
use stellar_xdr::{
    DecoratedSignature, Duration as XdrDuration, ExtendFootprintTtlOp, ExtensionPoint, Hash as XdrHash,
    LedgerBounds, LedgerFootprint, LedgerKey as XdrKey, Limits, Memo, MuxedAccount, Operation,
    OperationBody, Preconditions, PreconditionsV2, ReadXdr, RestoreFootprintOp, SequenceNumber,
    SignatureHint, SorobanResources, SorobanTransactionData, SorobanTransactionDataExt, TimeBounds,
    TimePoint, Transaction, TransactionEnvelope, TransactionExt, TransactionSignaturePayload,
    TransactionSignaturePayloadTaggedTransaction, TransactionV1Envelope, Uint256, VecM, WriteXdr,
};
use crate::keys::{AccountId, ed25519_public, public_key_of};
use crate::restore::{Candidate, ValidityWindow, restore_validity, soroban_fees, transaction_fees};
use crate::keeper::extension_validity;

verus! {

/// The one operation of a transaction.
#[derive(Clone, Copy, Debug, PartialEq, Eq)]
pub enum TxOperation {
    /// `RestoreFootprintOp`: restores the read-write footprint.
    RestoreFootprint,
    /// `ExtendFootprintTtlOp`: extends the read-only footprint to at least
    /// this many ledgers.
    ExtendFootprintTtl(u32),
}

/// The Soroban resources of a transaction (`SorobanTransactionData`): its
/// footprint as base64-XDR ledger keys, and the measured resources.
#[derive(Clone, Debug)]
pub struct ResourceData {
    pub read_only: Vec<String>,
    pub read_write: Vec<String>,
    pub instructions: u32,
    pub disk_read_bytes: u32,
    pub write_bytes: u32,
    pub resource_fee: i64,
}

/// Resources as plain values.
pub struct ResourceView {
    pub read_only: Seq<Seq<char>>,
    pub read_write: Seq<Seq<char>>,
    pub instructions: u32,
    pub disk_read_bytes: u32,
    pub write_bytes: u32,
    pub resource_fee: i64,
}

pub open spec fn strings_view(v: Seq<String>) -> Seq<Seq<char>> {
    v.map_values(|s: String| s@)
}

impl ResourceData {
    pub open spec fn view_res(&self) -> ResourceView {
        ResourceView {
            read_only: strings_view(self.read_only@),
            read_write: strings_view(self.read_write@),
            instructions: self.instructions,
            disk_read_bytes: self.disk_read_bytes,
            write_bytes: self.write_bytes,
            resource_fee: self.resource_fee,
        }
    }
}

/// A transaction with one Soroban operation, from an ed25519 source account.
#[derive(Clone, Debug)]
pub struct TxPlan {
    pub source: [u8; 32],
    pub fee: u32,
    pub seq_num: i64,
    pub window: ValidityWindow,
    pub operation: TxOperation,
    pub resources: ResourceData,
}

/// The base64 XDR of `SorobanTransactionData` with these resources, or the
/// text of the error (a key that does not decode).
pub uninterp spec fn resources_encoding(r: ResourceView) -> Result<Seq<char>, Seq<char>>;

/// The resources a base64-XDR `SorobanTransactionData` holds, or the text
/// of the decoding error.
pub uninterp spec fn resources_decoding(data_xdr: Seq<char>) -> Result<ResourceView, Seq<char>>;

/// The base64 XDR of the `Preconditions` that bound a transaction to the
/// window, from unix time `min_time`.
pub uninterp spec fn preconditions_encoding(min_time: u64, w: ValidityWindow) -> Result<Seq<char>, Seq<char>>;

/// The base64 XDR of an `Operation` without its own source account.
pub uninterp spec fn operation_encoding(op: TxOperation) -> Result<Seq<char>, Seq<char>>;

/// The base64 XDR of a V1 `Transaction` from its parts, each part but the
/// plain ones given as base64 XDR.
pub uninterp spec fn transaction_encoding(
    source: [u8; 32],
    fee: u32,
    seq_num: i64,
    op_xdr: Seq<char>,
    cond_xdr: Seq<char>,
    resources_xdr: Seq<char>,
) -> Result<Seq<char>, Seq<char>>;

/// The XDR bytes of the `TransactionSignaturePayload` of a base64-XDR
/// transaction on the network whose id is `network_id`.
pub uninterp spec fn payload_encoding(network_id: Seq<u8>, tx_xdr: Seq<char>) -> Result<Seq<u8>, Seq<char>>;

/// The SHA-256 digest of some bytes.
pub uninterp spec fn sha256(bytes: Seq<u8>) -> Seq<u8>;

/// The ed25519 signature of a message under a secret seed.
pub uninterp spec fn ed25519_signature(seed: [u8; 32], message: Seq<u8>) -> Seq<u8>;

/// The base64 XDR of the V1 envelope of a base64-XDR transaction, with no
/// signature or with one (its hint and signature bytes).
pub uninterp spec fn envelope_encoding(tx_xdr: Seq<char>, signature: Option<(Seq<u8>, Seq<u8>)>) -> Result<
    Seq<char>,
    Seq<char>,
>;

/// `SorobanTransactionData` (extension `V0`) built from the resources, the
/// keys decoded with `LedgerKey::from_xdr_base64`, encoded with
/// `to_xdr_base64`; no limits; errors rendered with `Display`.
#[verifier::external_body]
fn encode_resources(r: &ResourceData) -> (out: Result<String, String>)
    ensures
        match out {
            Ok(s) => resources_encoding(r.view_res()) == Ok::<Seq<char>, Seq<char>>(s@),
            Err(e) => resources_encoding(r.view_res()) == Err::<Seq<char>, Seq<char>>(e@),
        },
{
    let keys = |v: &Vec<String>| -> Result<VecM<XdrKey>, stellar_xdr::Error> {
        v.iter().map(|k| XdrKey::from_xdr_base64(k, Limits::none())).collect::<Result<Vec<_>, _>>()?.try_into()
    };
    let read_only = keys(&r.read_only).map_err(|e| e.to_string())?;
    let read_write = keys(&r.read_write).map_err(|e| e.to_string())?;
    let resources = SorobanResources {
        footprint: LedgerFootprint { read_only, read_write },
        instructions: r.instructions,
        disk_read_bytes: r.disk_read_bytes,
        write_bytes: r.write_bytes,
    };
    let data = SorobanTransactionData { ext: SorobanTransactionDataExt::V0, resources, resource_fee: r.resource_fee };
    data.to_xdr_base64(Limits::none()).map_err(|e| e.to_string())
}

/// `SorobanTransactionData::from_xdr_base64`, its footprint keys encoded
/// with `to_xdr_base64`; no limits; errors rendered with `Display`.
#[verifier::external_body]
pub fn decode_resources(data_xdr: &str) -> (out: Result<ResourceData, String>)
    ensures
        match out {
            Ok(r) => resources_decoding(data_xdr@) == Ok::<ResourceView, Seq<char>>(r.view_res()),
            Err(e) => resources_decoding(data_xdr@) == Err::<ResourceView, Seq<char>>(e@),
        },
{
    let d = SorobanTransactionData::from_xdr_base64(data_xdr, Limits::none()).map_err(|e| e.to_string())?;
    let keys = |v: &VecM<XdrKey>| v.iter().map(|k| k.to_xdr_base64(Limits::none())).collect::<Result<Vec<_>, _>>();
    let f = &d.resources.footprint;
    Ok(ResourceData {
        read_only: keys(&f.read_only).map_err(|e| e.to_string())?,
        read_write: keys(&f.read_write).map_err(|e| e.to_string())?,
        instructions: d.resources.instructions,
        disk_read_bytes: d.resources.disk_read_bytes,
        write_bytes: d.resources.write_bytes,
        resource_fee: d.resource_fee,
    })
}

/// `Preconditions::V2` with time bounds from `min_time` to `w.max_time`,
/// ledger bounds from `w.min_ledger` to `w.max_ledger`, and no other
/// condition, encoded with `to_xdr_base64`; errors rendered with `Display`.
#[verifier::external_body]
fn encode_preconditions(min_time: u64, w: ValidityWindow) -> (out: Result<String, String>)
    ensures
        match out {
            Ok(s) => preconditions_encoding(min_time, w) == Ok::<Seq<char>, Seq<char>>(s@),
            Err(e) => preconditions_encoding(min_time, w) == Err::<Seq<char>, Seq<char>>(e@),
        },
{
    Preconditions::V2(PreconditionsV2 {
        time_bounds: Some(TimeBounds { min_time: TimePoint(min_time), max_time: TimePoint(w.max_time) }),
        ledger_bounds: Some(LedgerBounds { min_ledger: w.min_ledger, max_ledger: w.max_ledger }),
        min_seq_num: None,
        min_seq_age: XdrDuration(0),
        min_seq_ledger_gap: 0,
        extra_signers: VecM::default(),
    }).to_xdr_base64(Limits::none()).map_err(|e| e.to_string())
}

/// The `Operation` (no source account) of the operation, with extension
/// point `V0`, encoded with `to_xdr_base64`; errors rendered with `Display`.
#[verifier::external_body]
fn encode_operation(op: TxOperation) -> (out: Result<String, String>)
    ensures
        match out {
            Ok(s) => operation_encoding(op) == Ok::<Seq<char>, Seq<char>>(s@),
            Err(e) => operation_encoding(op) == Err::<Seq<char>, Seq<char>>(e@),
        },
{
    let body = match op {
        TxOperation::RestoreFootprint => OperationBody::RestoreFootprint(RestoreFootprintOp { ext: ExtensionPoint::V0 }),
        TxOperation::ExtendFootprintTtl(n) => OperationBody::ExtendFootprintTtl(
            ExtendFootprintTtlOp { ext: ExtensionPoint::V0, extend_to: n },
        ),
    };
    Operation { source_account: None, body }.to_xdr_base64(Limits::none()).map_err(|e| e.to_string())
}

/// A V1 `Transaction` from a muxed ed25519 source, fee, sequence number,
/// the decoded preconditions, no memo, the one decoded operation and the
/// decoded resources (extension `V1`), encoded with `to_xdr_base64`; no
/// limits; errors rendered with `Display`.
#[verifier::external_body]
fn encode_transaction_parts(source: [u8; 32], fee: u32, seq_num: i64, op_xdr: &str, cond_xdr: &str, resources_xdr: &str) -> (out: Result<String, String>)
    ensures
        match out {
            Ok(s) => transaction_encoding(source, fee, seq_num, op_xdr@, cond_xdr@, resources_xdr@) == Ok::<Seq<char>, Seq<char>>(s@),
            Err(e) => transaction_encoding(source, fee, seq_num, op_xdr@, cond_xdr@, resources_xdr@) == Err::<Seq<char>, Seq<char>>(e@),
        },
{
    let op = Operation::from_xdr_base64(op_xdr, Limits::none()).map_err(|e| e.to_string())?;
    let cond = Preconditions::from_xdr_base64(cond_xdr, Limits::none()).map_err(|e| e.to_string())?;
    let data = SorobanTransactionData::from_xdr_base64(resources_xdr, Limits::none()).map_err(|e| e.to_string())?;
    let operations = vec![op].try_into().map_err(|e: stellar_xdr::Error| e.to_string())?;
    let source_account = MuxedAccount::Ed25519(Uint256(source));
    let ext = TransactionExt::V1(data);
    Transaction { source_account, fee, seq_num: SequenceNumber(seq_num), cond, memo: Memo::None, operations, ext }
        .to_xdr_base64(Limits::none()).map_err(|e| e.to_string())
}

/// The XDR bytes (`to_xdr`, no limits) of the `TransactionSignaturePayload`
/// tagging the decoded transaction with the network id; errors rendered
/// with `Display`.
#[verifier::external_body]
fn encode_payload(network_id: [u8; 32], tx_xdr: &str) -> (out: Result<Vec<u8>, String>)
    ensures
        match out {
            Ok(b) => payload_encoding(network_id@, tx_xdr@) == Ok::<Seq<u8>, Seq<char>>(b@),
            Err(e) => payload_encoding(network_id@, tx_xdr@) == Err::<Seq<u8>, Seq<char>>(e@),
        },
{
    let tx = Transaction::from_xdr_base64(tx_xdr, Limits::none()).map_err(|e| e.to_string())?;
    let tagged_transaction = TransactionSignaturePayloadTaggedTransaction::Tx(tx);
    TransactionSignaturePayload { network_id: XdrHash(network_id), tagged_transaction }
        .to_xdr(Limits::none()).map_err(|e| e.to_string())
}

/// `Sha256::digest`: the 32-byte SHA-256 digest of the bytes.
#[verifier::external_body]
fn sha256_of(bytes: &[u8]) -> (r: [u8; 32])
    ensures
        r@ == sha256(bytes@),
{
    Sha256::digest(bytes).into()
}

/// `SigningKey::from_bytes(seed).sign(message).to_bytes()`: the ed25519
/// signature of the message (ed25519 signing is deterministic).
#[verifier::external_body]
fn sign_bytes(seed: [u8; 32], message: &[u8]) -> (r: [u8; 64])
    ensures
        r@ == ed25519_signature(seed, message@),
{
    SigningKey::from_bytes(&seed).sign(message).to_bytes()
}

/// A `TransactionV1Envelope` holding the decoded transaction and no
/// signature or one `DecoratedSignature`, encoded with `to_xdr_base64`; no
/// limits; errors rendered with `Display`.
#[verifier::external_body]
fn encode_envelope(tx_xdr: &str, signature: Option<([u8; 4], [u8; 64])>) -> (out: Result<String, String>)
    ensures
        match out {
            Ok(s) => envelope_encoding(tx_xdr@, sig_view(signature)) == Ok::<Seq<char>, Seq<char>>(s@),
            Err(e) => envelope_encoding(tx_xdr@, sig_view(signature)) == Err::<Seq<char>, Seq<char>>(e@),
        },
{
    let tx = Transaction::from_xdr_base64(tx_xdr, Limits::none()).map_err(|e| e.to_string())?;
    let signatures: Vec<DecoratedSignature> = match signature {
        Some((h, s)) => vec![DecoratedSignature {
            hint: SignatureHint(h),
            signature: s.to_vec().try_into().map_err(|e: stellar_xdr::Error| e.to_string())?,
        }],
        None => vec![],
    };
    let signatures = signatures.try_into().map_err(|e: stellar_xdr::Error| e.to_string())?;
    TransactionEnvelope::Tx(TransactionV1Envelope { tx, signatures }).to_xdr_base64(Limits::none()).map_err(|e| e.to_string())
}

pub open spec fn sig_view(signature: Option<([u8; 4], [u8; 64])>) -> Option<(Seq<u8>, Seq<u8>)> {
    match signature {
        Some((h, s)) => Some((h@, s@)),
        None => None,
    }
}

/// The base64 XDR of a plan's transaction: its resources, its preconditions
/// (valid from unix time 0) and its operation, put together.
pub open spec fn plan_xdr(p: TxPlan) -> Result<Seq<char>, Seq<char>> {
    match resources_encoding(p.resources.view_res()) {
        Err(e) => Err(e),
        Ok(r) => match preconditions_encoding(0, p.window) {
            Err(e) => Err(e),
            Ok(c) => match operation_encoding(p.operation) {
                Err(e) => Err(e),
                Ok(o) => transaction_encoding(p.source, p.fee, p.seq_num, o, c, r),
            },
        },
    }
}

/// The base64 XDR of a plan's transaction.
pub fn encode_transaction(plan: &TxPlan) -> (r: Result<String, String>)
    ensures
        match plan_xdr(*plan) {
            Ok(s) => r matches Ok(x) && x@ == s,
            Err(e) => r matches Err(x) && x@ == e,
        },
{
    let res = match encode_resources(&plan.resources) {
        Ok(s) => s,
        Err(e) => {
            return Err(e);
        },
    };
    let cond = match encode_preconditions(0, plan.window) {
        Ok(s) => s,
        Err(e) => {
            return Err(e);
        },
    };
    let op = match encode_operation(plan.operation) {
        Ok(s) => s,
        Err(e) => {
            return Err(e);
        },
    };
    encode_transaction_parts(plan.source, plan.fee, plan.seq_num, op.as_str(), cond.as_str(), res.as_str())
}

/// The unsigned envelope of a plan's transaction, in base64 XDR.
pub open spec fn unsigned_xdr(p: TxPlan) -> Result<Seq<char>, Seq<char>> {
    match plan_xdr(p) {
        Err(e) => Err(e),
        Ok(t) => envelope_encoding(t, None),
    }
}

/// The unsigned envelope of a plan's transaction, in base64 XDR (what the
/// network simulates, and what the planner emits for others to sign).
pub fn unsigned_envelope(plan: &TxPlan) -> (r: Result<String, String>)
    ensures
        match unsigned_xdr(*plan) {
            Ok(s) => r matches Ok(x) && x@ == s,
            Err(e) => r matches Err(x) && x@ == e,
        },
{
    let tx = match encode_transaction(plan) {
        Ok(t) => t,
        Err(e) => {
            return Err(e);
        },
    };
    encode_envelope(tx.as_str(), None)
}

/// The hash a transaction's signers sign: the SHA-256 of its signature
/// payload on the network whose id is the SHA-256 of the passphrase.
pub open spec fn signing_hash(passphrase: Seq<u8>, tx_xdr: Seq<char>) -> Result<Seq<u8>, Seq<char>> {
    match payload_encoding(sha256(passphrase), tx_xdr) {
        Err(e) => Err(e),
        Ok(b) => Ok(sha256(b)),
    }
}

/// The envelope of a plan's transaction signed with a secret seed for the
/// network with this passphrase: one signature over the signing hash,
/// hinted by the first four bytes of the public key.
pub open spec fn signed_xdr(p: TxPlan, seed: [u8; 32], passphrase: Seq<u8>) -> Result<Seq<char>, Seq<char>> {
    match plan_xdr(p) {
        Err(e) => Err(e),
        Ok(t) => match signing_hash(passphrase, t) {
            Err(e) => Err(e),
            Ok(h) => envelope_encoding(
                t,
                Some((ed25519_public(seed)@.subrange(0, 4), ed25519_signature(seed, h))),
            ),
        },
    }
}

/// Signs a plan's transaction with the secret seed for the network with
/// this passphrase, giving the base64-XDR envelope to submit.
pub fn sign_transaction(plan: &TxPlan, seed: [u8; 32], passphrase: &str) -> (r: Result<String, String>)
    ensures
        match signed_xdr(*plan, seed, passphrase.spec_bytes()) {
            Ok(s) => r matches Ok(x) && x@ == s,
            Err(e) => r matches Err(x) && x@ == e,
        },
{
    let tx = match encode_transaction(plan) {
        Ok(t) => t,
        Err(e) => {
            return Err(e);
        },
    };
    let network_id = sha256_of(passphrase.as_bytes());
    let payload = match encode_payload(network_id, tx.as_str()) {
        Ok(b) => b,
        Err(e) => {
            return Err(e);
        },
    };
    let hash = sha256_of(payload.as_slice());
    let signature = sign_bytes(seed, &hash);
    let public = public_key_of(seed);
    let hint: [u8; 4] = [public[0], public[1], public[2], public[3]];
    proof {
        assert(hint@ =~= ed25519_public(seed)@.subrange(0, 4));
    }
    encode_envelope(tx.as_str(), Some((hint, signature)))
}

/// Resources holding only a footprint: nothing measured yet and no
/// resource fee.
pub open spec fn footprint_only(r: ResourceView, read_only: Seq<Seq<char>>, read_write: Seq<Seq<char>>, disk_read_bytes: u32) -> bool {
    &&& r.read_only == read_only
    &&& r.read_write == read_write
    &&& r.instructions == 0
    &&& r.disk_read_bytes == disk_read_bytes
    &&& r.write_bytes == 0
    &&& r.resource_fee == 0
}

fn copy_strings(v: &Vec<String>) -> (r: Vec<String>)
    ensures
        strings_view(r@) == strings_view(v@),
{
    let mut out: Vec<String> = Vec::new();
    let mut i: usize = 0;
    while i < v.len()
        invariant
            i <= v.len(),
            strings_view(out@) == strings_view(v@.take(i as int)),
        decreases v.len() - i,
    {
        let ghost before = strings_view(out@);
        out.push(v[i].clone());
        proof {
            assert(strings_view(out@) =~= before.push(v@[i as int]@));
            assert(strings_view(v@.take(i + 1)) =~= strings_view(v@.take(i as int)).push(v@[i as int]@));
        }
        i = i + 1;
    }
    assert(v@.take(v.len() as int) =~= v@);
    out
}

/// The keys of candidates, in order.
pub open spec fn candidate_key_views(cs: Seq<Candidate>) -> Seq<Seq<char>> {
    cs.map_values(|c: Candidate| c.key_xdr@)
}

fn candidate_keys_of(cs: &Vec<Candidate>) -> (r: Vec<String>)
    ensures
        strings_view(r@) == candidate_key_views(cs@),
{
    let mut out: Vec<String> = Vec::new();
    let mut i: usize = 0;
    while i < cs.len()
        invariant
            i <= cs.len(),
            strings_view(out@) == candidate_key_views(cs@.take(i as int)),
        decreases cs.len() - i,
    {
        let ghost before = strings_view(out@);
        out.push(cs[i].key_xdr.clone());
        proof {
            assert(strings_view(out@) =~= before.push(cs@[i as int].key_xdr@));
            assert(candidate_key_views(cs@.take(i + 1)) =~= candidate_key_views(cs@.take(i as int)).push(
                cs@[i as int].key_xdr@,
            ));
        }
        i = i + 1;
    }
    assert(cs@.take(cs.len() as int) =~= cs@);
    out
}

/// The restore window: 1_000 ledgers and an hour from now.
pub open spec fn restore_window(current_ledger: u32, now: u64) -> ValidityWindow {
    ValidityWindow {
        min_ledger: current_ledger,
        max_ledger: (current_ledger + 1_000) as u32,
        max_time: (now + 3_600) as u64,
    }
}

/// The probe restore transaction the planner simulates: a
/// `RestoreFootprintOp` whose read-write footprint holds every candidate,
/// nothing measured yet, an inclusion fee of 100 stroops, valid for the
/// restore window.
pub fn restore_probe(source: AccountId, seq_num: i64, current_ledger: u32, now: u64, candidates: &Vec<Candidate>) -> (r: TxPlan)
    requires
        current_ledger + 1_000 <= u32::MAX,
        now + 3_600 <= u64::MAX,
    ensures
        r.source == source.ed25519,
        r.seq_num == seq_num,
        r.fee == 100,
        r.window == restore_window(current_ledger, now),
        r.operation == TxOperation::RestoreFootprint,
        footprint_only(r.resources.view_res(), seq![], candidate_key_views(candidates@), 0),
{
    let read_write = candidate_keys_of(candidates);
    let read_only: Vec<String> = Vec::new();
    assert(strings_view(read_only@) =~= Seq::<Seq<char>>::empty());
    TxPlan {
        source: source.ed25519,
        fee: 100,
        seq_num,
        window: restore_validity(current_ledger, now),
        operation: TxOperation::RestoreFootprint,
        resources: ResourceData {
            read_only,
            read_write,
            instructions: 0,
            disk_read_bytes: 0,
            write_bytes: 0,
            resource_fee: 0,
        },
    }
}

/// Whether `r` is the simulated resources `sim` with the resource fee
/// replaced by `resource_fee`.
pub open spec fn with_resource_fee(r: ResourceView, sim: ResourceView, resource_fee: i64) -> bool {
    r == ResourceView { resource_fee, ..sim }
}

fn simulated(sim: &ResourceData, resource_fee: i64) -> (r: ResourceData)
    ensures
        with_resource_fee(r.view_res(), sim.view_res(), resource_fee),
{
    ResourceData {
        read_only: copy_strings(&sim.read_only),
        read_write: copy_strings(&sim.read_write),
        instructions: sim.instructions,
        disk_read_bytes: sim.disk_read_bytes,
        write_bytes: sim.write_bytes,
        resource_fee,
    }
}

/// The restore transaction rebuilt from the simulation: the simulated
/// resources with the resource fee the simulation asked for, and a fee of
/// that plus the inclusion fee (both saturating), valid for the restore
/// window.
pub fn restore_final(
    source: AccountId,
    seq_num: i64,
    current_ledger: u32,
    now: u64,
    sim: &ResourceData,
    min_resource_fee: u64,
) -> (r: TxPlan)
    requires
        current_ledger + 1_000 <= u32::MAX,
        now + 3_600 <= u64::MAX,
        min_resource_fee + 100 <= u64::MAX,
    ensures
        r.source == source.ed25519,
        r.seq_num == seq_num,
        r.fee == soroban_fees(min_resource_fee).0,
        r.window == restore_window(current_ledger, now),
        r.operation == TxOperation::RestoreFootprint,
        with_resource_fee(r.resources.view_res(), sim.view_res(), soroban_fees(min_resource_fee).1),
{
    let (fee, resource_fee) = transaction_fees(min_resource_fee);
    TxPlan {
        source: source.ed25519,
        fee,
        seq_num,
        window: restore_validity(current_ledger, now),
        operation: TxOperation::RestoreFootprint,
        resources: simulated(sim, resource_fee),
    }
}

/// The extension window: 200 ledgers and five minutes from now.
pub open spec fn extension_window(current_ledger: u32, now: u64) -> ValidityWindow {
    ValidityWindow {
        min_ledger: current_ledger,
        max_ledger: (current_ledger + 200) as u32,
        max_time: (now + 300) as u64,
    }
}

/// The probe extension transaction the keeper simulates: an
/// `ExtendFootprintTtlOp` to `extend_to` over a read-only footprint of the
/// keys, reading `read_bytes` bytes, an inclusion fee of 100 stroops, valid
/// for the extension window.
pub fn extension_probe(
    source: AccountId,
    seq_num: i64,
    current_ledger: u32,
    now: u64,
    keys: &Vec<String>,
    read_bytes: u32,
    extend_to: u32,
) -> (r: TxPlan)
    requires
        current_ledger + 200 <= u32::MAX,
        now + 300 <= u64::MAX,
    ensures
        r.source == source.ed25519,
        r.seq_num == seq_num,
        r.fee == 100,
        r.window == extension_window(current_ledger, now),
        r.operation == TxOperation::ExtendFootprintTtl(extend_to),
        footprint_only(r.resources.view_res(), strings_view(keys@), seq![], read_bytes),
{
    let read_write: Vec<String> = Vec::new();
    assert(strings_view(read_write@) =~= Seq::<Seq<char>>::empty());
    TxPlan {
        source: source.ed25519,
        fee: 100,
        seq_num,
        window: extension_validity(current_ledger, now),
        operation: TxOperation::ExtendFootprintTtl(extend_to),
        resources: ResourceData {
            read_only: copy_strings(keys),
            read_write,
            instructions: 0,
            disk_read_bytes: read_bytes,
            write_bytes: 0,
            resource_fee: 0,
        },
    }
}

/// The extension transaction rebuilt from the simulation: the simulated
/// resources with the resource fee the simulation asked for, and a fee of
/// that plus the inclusion fee (both saturating).
pub fn extension_final(
    source: AccountId,
    seq_num: i64,
    current_ledger: u32,
    now: u64,
    extend_to: u32,
    sim: &ResourceData,
    min_resource_fee: u64,
) -> (r: TxPlan)
    requires
        current_ledger + 200 <= u32::MAX,
        now + 300 <= u64::MAX,
        min_resource_fee + 100 <= u64::MAX,
    ensures
        r.source == source.ed25519,
        r.seq_num == seq_num,
        r.fee == soroban_fees(min_resource_fee).0,
        r.window == extension_window(current_ledger, now),
        r.operation == TxOperation::ExtendFootprintTtl(extend_to),
        with_resource_fee(r.resources.view_res(), sim.view_res(), soroban_fees(min_resource_fee).1),
{
    let (fee, resource_fee) = transaction_fees(min_resource_fee);
    TxPlan {
        source: source.ed25519,
        fee,
        seq_num,
        window: extension_validity(current_ledger, now),
        operation: TxOperation::ExtendFootprintTtl(extend_to),
        resources: simulated(sim, resource_fee),
    }
}

} // verus!
