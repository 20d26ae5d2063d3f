//! Configuration for the rent-keeper daemon and its validation.

use vstd::prelude::*;
use crate::text::{decimal, u64_to_string};

verus! {

/// Approximate ledger close time, in seconds.
pub const SECONDS_PER_LEDGER: u64 = 5;

/// One contract to watch.
#[derive(Clone, Debug)]
pub struct ContractConfig {
    /// Contract id as a `C...` strkey.
    pub contract_id: String,
    /// Extend entries when their TTL drops to at most this many ledgers.
    pub threshold_ledgers: u32,
    /// Extend entries to at least this many ledgers.
    pub extend_to_ledgers: u32,
    /// Additional contract-data ledger keys (base64-XDR `LedgerKey`).
    pub data_keys: Vec<String>,
}

/// The daemon configuration.
#[derive(Clone, Debug)]
pub struct Config {
    /// Stellar RPC endpoint.
    pub rpc_url: String,
    /// Network passphrase (must match the RPC network).
    pub network_passphrase: String,
    /// Signing account secret key (`S...` strkey) that pays for extensions.
    pub signer_secret: String,
    /// `host:port` for the Prometheus `/metrics` endpoint.
    pub metrics_addr: String,
    /// Upper bound on one extension footprint, in bytes.
    pub max_batch_bytes: u32,
    /// Seconds between polls.
    pub poll_interval_secs: u64,
    /// Opt out of the threshold-vs-poll-cadence check.
    pub allow_short_threshold: bool,
    /// Startup floor for the signer balance, in stroops.
    pub min_signer_balance_stroops: i64,
    /// The contracts to watch.
    pub contracts: Vec<ContractConfig>,
}

/// Default extension threshold: 10 days of ledgers.
pub fn default_threshold() -> (r: u32)
    ensures
        r == 172_800,
{
    172_800
}

/// Default extension target: 30 days of ledgers.
pub fn default_extend_to() -> (r: u32)
    ensures
        r == 518_400,
{
    518_400
}

/// Default metrics listen address.
pub fn default_metrics_addr() -> (r: String)
    ensures
        r@ == "127.0.0.1:9090"@,
{
    String::from_str("127.0.0.1:9090")
}

/// Default cap on one extension footprint, in bytes.
pub fn default_max_batch_bytes() -> (r: u32)
    ensures
        r == 200_000,
{
    200_000
}

/// Default seconds between polls.
pub fn default_poll_interval_secs() -> (r: u64)
    ensures
        r == 600,
{
    600
}

/// Default signer balance floor: 1 XLM, in stroops.
pub fn default_min_signer_balance_stroops() -> (r: i64)
    ensures
        r == 10_000_000,
{
    10_000_000
}

/// Ledgers that close between two polls, rounded up.
pub open spec fn spec_ledgers_between_polls(poll_interval_secs: u64) -> nat {
    (poll_interval_secs / 5 + if poll_interval_secs % 5 != 0 {
        1int
    } else {
        0int
    }) as nat
}

/// Ledgers that close between two polls, rounded up.
pub fn ledgers_between_polls(poll_interval_secs: u64) -> (r: u64)
    ensures
        r == spec_ledgers_between_polls(poll_interval_secs),
{
    poll_interval_secs / SECONDS_PER_LEDGER + if poll_interval_secs % SECONDS_PER_LEDGER != 0 {
        1
    } else {
        0
    }
}

/// The complaint about one contract, if any.
pub open spec fn contract_error(c: ContractConfig, poll_interval_secs: u64, allow_short: bool) -> Option<Seq<char>> {
    if c.contract_id@.len() == 0 {
        Some("contract_id is required for every contract"@)
    } else if c.threshold_ledgers >= c.extend_to_ledgers {
        Some(
            "contract "@ + c.contract_id@ + ": threshold_ledgers ("@ + decimal(
                c.threshold_ledgers as nat,
            ) + ") must be < extend_to_ledgers ("@ + decimal(c.extend_to_ledgers as nat) + ")"@,
        )
    } else if !allow_short && c.threshold_ledgers < spec_ledgers_between_polls(poll_interval_secs) {
        Some(
            "contract "@ + c.contract_id@ + ": threshold_ledgers ("@ + decimal(
                c.threshold_ledgers as nat,
            ) + ") is below the ~"@ + decimal(spec_ledgers_between_polls(poll_interval_secs))
                + " ledgers that close between polls (poll_interval_secs "@ + decimal(
                poll_interval_secs as nat,
            ) + "); raise it or set allow_short_threshold"@,
        )
    } else {
        None
    }
}

/// The complaint about the first contract that has one.
pub open spec fn first_contract_error(cs: Seq<ContractConfig>, poll_interval_secs: u64, allow_short: bool) -> Option<Seq<char>>
    decreases cs.len(),
{
    if cs.len() == 0 {
        None
    } else {
        match contract_error(cs[0], poll_interval_secs, allow_short) {
            Some(e) => Some(e),
            None => first_contract_error(cs.drop_first(), poll_interval_secs, allow_short),
        }
    }
}

/// What is wrong with a configuration, checked in order: the endpoint, the
/// passphrase, the signer, the contract list, then each contract.
pub open spec fn config_error(c: Config) -> Option<Seq<char>> {
    if c.rpc_url@.len() == 0 {
        Some("rpc_url is required"@)
    } else if c.network_passphrase@.len() == 0 {
        Some("network_passphrase is required"@)
    } else if c.signer_secret@.len() == 0 {
        Some("signer_secret is required (or set SOROBAN_SIGNER_SECRET)"@)
    } else if c.contracts@.len() == 0 {
        Some("at least one contract is required"@)
    } else {
        first_contract_error(c.contracts@, c.poll_interval_secs, c.allow_short_threshold)
    }
}

fn check_contract(c: &ContractConfig, poll_interval_secs: u64, allow_short: bool) -> (r: Result<(), String>)
    ensures
        match contract_error(*c, poll_interval_secs, allow_short) {
            Some(e) => r is Err && r->Err_0@ == e,
            None => r is Ok,
        },
{
    if c.contract_id.as_str().is_empty() {
        return Err(String::from_str("contract_id is required for every contract"));
    }
    if c.threshold_ledgers >= c.extend_to_ledgers {
        let mut m = String::from_str("contract ");
        m.append(c.contract_id.as_str());
        m.append(": threshold_ledgers (");
        let t = u64_to_string(c.threshold_ledgers as u64);
        m.append(t.as_str());
        m.append(") must be < extend_to_ledgers (");
        let e = u64_to_string(c.extend_to_ledgers as u64);
        m.append(e.as_str());
        m.append(")");
        return Err(m);
    }
    let ledgers = ledgers_between_polls(poll_interval_secs);
    if !allow_short && (c.threshold_ledgers as u64) < ledgers {
        let mut m = String::from_str("contract ");
        m.append(c.contract_id.as_str());
        m.append(": threshold_ledgers (");
        let t = u64_to_string(c.threshold_ledgers as u64);
        m.append(t.as_str());
        m.append(") is below the ~");
        let l = u64_to_string(ledgers);
        m.append(l.as_str());
        m.append(" ledgers that close between polls (poll_interval_secs ");
        let p = u64_to_string(poll_interval_secs);
        m.append(p.as_str());
        m.append("); raise it or set allow_short_threshold");
        return Err(m);
    }
    Ok(())
}

impl Config {
    /// Validates the configuration: the endpoint, passphrase and signer must
    /// be set, at least one contract listed, and each contract needs an id, a
    /// threshold below its target and (unless `allow_short_threshold`) a
    /// threshold no shorter than the ledgers that close between polls.
    pub fn validate(&self) -> (r: Result<(), String>)
        ensures
            match config_error(*self) {
                Some(e) => r is Err && r->Err_0@ == e,
                None => r is Ok,
            },
    {
        if self.rpc_url.as_str().is_empty() {
            return Err(String::from_str("rpc_url is required"));
        }
        if self.network_passphrase.as_str().is_empty() {
            return Err(String::from_str("network_passphrase is required"));
        }
        if self.signer_secret.as_str().is_empty() {
            return Err(String::from_str("signer_secret is required (or set SOROBAN_SIGNER_SECRET)"));
        }
        if self.contracts.len() == 0 {
            return Err(String::from_str("at least one contract is required"));
        }
        let mut i: usize = 0;
        assert(self.contracts@.skip(0) =~= self.contracts@);
        while i < self.contracts.len()
            invariant
                i <= self.contracts.len(),
                config_error(*self) == first_contract_error(
                    self.contracts@,
                    self.poll_interval_secs,
                    self.allow_short_threshold,
                ),
                first_contract_error(self.contracts@, self.poll_interval_secs, self.allow_short_threshold)
                    == first_contract_error(
                    self.contracts@.skip(i as int),
                    self.poll_interval_secs,
                    self.allow_short_threshold,
                ),
            decreases self.contracts.len() - i,
        {
            let ghost rest = self.contracts@.skip(i as int);
            assert(rest.drop_first() =~= self.contracts@.skip(i + 1));
            assert(rest[0] == self.contracts@[i as int]);
            match check_contract(&self.contracts[i], self.poll_interval_secs, self.allow_short_threshold) {
                Err(e) => {
                    assert(rest.len() > 0);
                    assert(first_contract_error(rest, self.poll_interval_secs, self.allow_short_threshold)
                        == contract_error(rest[0], self.poll_interval_secs, self.allow_short_threshold));
                    return Err(e);
                },
                Ok(()) => {},
            }
            i = i + 1;
        }
        Ok(())
    }
}


proof fn lemma_first_contract_error_none(cs: Seq<ContractConfig>, poll_interval_secs: u64, allow_short: bool)
    requires
        first_contract_error(cs, poll_interval_secs, allow_short) is None,
    ensures
        forall|i: int|
            0 <= i < cs.len() ==> contract_error(#[trigger] cs[i], poll_interval_secs, allow_short) is None,
    decreases cs.len(),
{
    if cs.len() > 0 {
        lemma_first_contract_error_none(cs.drop_first(), poll_interval_secs, allow_short);
        assert forall|i: int| 0 <= i < cs.len() implies contract_error(
            #[trigger] cs[i],
            poll_interval_secs,
            allow_short,
        ) is None by {
            if i > 0 {
                assert(cs.drop_first()[i - 1] == cs[i]);
            }
        }
    }
}

/// An accepted configuration watches at least one contract, and every
/// contract it watches has an id, re-extends strictly below its target, and
/// (unless short thresholds are allowed) keeps a threshold no shorter than
/// the ledgers that close between two polls, so no entry can expire unseen.
pub proof fn lemma_accepted_configs_are_sound(c: Config)
    requires
        config_error(c) is None,
    ensures
        c.contracts@.len() > 0,
        forall|i: int|
            0 <= i < c.contracts@.len() ==> {
                let cc = #[trigger] c.contracts@[i];
                &&& cc.contract_id@.len() > 0
                &&& cc.threshold_ledgers < cc.extend_to_ledgers
                &&& (!c.allow_short_threshold ==> cc.threshold_ledgers >= spec_ledgers_between_polls(
                    c.poll_interval_secs,
                ))
            },
{
    lemma_first_contract_error_none(c.contracts@, c.poll_interval_secs, c.allow_short_threshold);
    assert forall|i: int| 0 <= i < c.contracts@.len() implies {
        let cc = #[trigger] c.contracts@[i];
        &&& cc.contract_id@.len() > 0
        &&& cc.threshold_ledgers < cc.extend_to_ledgers
        &&& (!c.allow_short_threshold ==> cc.threshold_ledgers >= spec_ledgers_between_polls(
            c.poll_interval_secs,
        ))
    } by {
        assert(contract_error(c.contracts@[i], c.poll_interval_secs, c.allow_short_threshold) is None);
    }
}

} // verus!
