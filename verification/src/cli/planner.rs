//! The restore planner's command line.

use vstd::prelude::*;
use crate::text::{concat, concat3, decimal, str_eq, u64_to_string};

verus! {

/// The planner's help text, printed by `--help`.
pub const PLANNER_HELP: &'static str = "soroban-restore-planner — emit a RestoreFootprintOp for archived contract state

USAGE:
    soroban-restore-planner --contract <C...> [OPTIONS]
    soroban-restore-planner --config <file.json> [OPTIONS]

REQUIRED (single contract mode):
    --contract <C...>            Contract id to restore
    --network-passphrase <PASS>  Network passphrase (or SOROBAN_NETWORK_PASSPHRASE)
    --rpc-url <URL>              Stellar RPC endpoint (or SOROBAN_RPC_URL)
    --source <G...>              Transaction source account, or derive it from
                                 --signer-secret

BATCH MODE:
    --config <file.json>         Restore every contract in the config file. The
                                 file carries rpc_url, network_passphrase,
                                 source/signer_secret, submit and contracts[].
                                 Flags below override the file when present.

OPTIONS:
    --signer-secret <S...>       Secret key used to sign with --submit
                                 (or SOROBAN_SIGNER_SECRET)
    --key <BASE64_XDR>           Extra contract-data LedgerKey to consider
                                 (repeatable; single contract mode)
    --wasm-hash <HEX>            Contract code hash (64 hex chars) to include
                                 when the instance entry is archived
    --submit                     Sign (requires --signer-secret) and submit
    --out <PATH>                 File (single) or directory (batch) for the
                                 unsigned envelope(s)
    --json                       Emit a JSON report
    -h, --help                   Print this help and exit

In batch mode the run continues past failures and exits non-zero if any
contract failed.
";

/// Returns the help text.
pub fn help() -> (r: &'static str)
    ensures
        r@ == PLANNER_HELP@,
{
    PLANNER_HELP
}


/// The planner's options.
#[derive(Clone, Debug)]
pub struct Args {
    pub contract: Option<String>,
    pub config: Option<String>,
    pub rpc_url: Option<String>,
    pub network_passphrase: Option<String>,
    pub source: Option<String>,
    pub signer_secret: Option<String>,
    pub keys: Vec<String>,
    pub wasm_hash: Option<String>,
    pub submit: bool,
    pub out: Option<String>,
    pub json: bool,
}

/// The options as mathematical values.
pub struct ArgsView {
    pub contract: Option<Seq<char>>,
    pub config: Option<Seq<char>>,
    pub rpc_url: Option<Seq<char>>,
    pub network_passphrase: Option<Seq<char>>,
    pub source: Option<Seq<char>>,
    pub signer_secret: Option<Seq<char>>,
    pub keys: Seq<Seq<char>>,
    pub wasm_hash: Option<Seq<char>>,
    pub submit: bool,
    pub out: Option<Seq<char>>,
    pub json: bool,
}

impl Args {
    pub open spec fn view_args(&self) -> ArgsView {
        ArgsView {
            contract: self.contract.deep_view(),
            config: self.config.deep_view(),
            rpc_url: self.rpc_url.deep_view(),
            network_passphrase: self.network_passphrase.deep_view(),
            source: self.source.deep_view(),
            signer_secret: self.signer_secret.deep_view(),
            keys: self.keys.deep_view(),
            wasm_hash: self.wasm_hash.deep_view(),
            submit: self.submit,
            out: self.out.deep_view(),
            json: self.json,
        }
    }
}

/// What the command line asks for.
pub enum Command {
    /// Plan with these options.
    Run(Args),
    /// Print the help text and exit successfully.
    Help,
}

/// What the command line asks for, as mathematical values.
pub enum CommandView {
    Run(ArgsView),
    Help,
    Failed(Seq<char>),
}

pub open spec fn no_args() -> ArgsView {
    ArgsView {
        contract: None,
        config: None,
        rpc_url: None,
        network_passphrase: None,
        source: None,
        signer_secret: None,
        keys: Seq::empty(),
        wasm_hash: None,
        submit: false,
        out: None,
        json: false,
    }
}

/// Whether a flag takes a value.
pub open spec fn takes_value(f: Seq<char>) -> bool {
    f == "--contract"@ || f == "--config"@ || f == "--rpc-url"@ || f == "--network-passphrase"@
        || f == "--source"@ || f == "--signer-secret"@ || f == "--key"@ || f == "--wasm-hash"@
        || f == "--out"@
}

/// The options after a flag that takes a value: `--key` adds one more key,
/// the others replace the earlier value.
pub open spec fn with_value(a: ArgsView, f: Seq<char>, v: Seq<char>) -> ArgsView {
    if f == "--contract"@ {
        ArgsView { contract: Some(v), ..a }
    } else if f == "--config"@ {
        ArgsView { config: Some(v), ..a }
    } else if f == "--rpc-url"@ {
        ArgsView { rpc_url: Some(v), ..a }
    } else if f == "--network-passphrase"@ {
        ArgsView { network_passphrase: Some(v), ..a }
    } else if f == "--source"@ {
        ArgsView { source: Some(v), ..a }
    } else if f == "--signer-secret"@ {
        ArgsView { signer_secret: Some(v), ..a }
    } else if f == "--key"@ {
        ArgsView { keys: a.keys.push(v), ..a }
    } else if f == "--wasm-hash"@ {
        ArgsView { wasm_hash: Some(v), ..a }
    } else {
        ArgsView { out: Some(v), ..a }
    }
}

pub open spec fn missing_value_message(f: Seq<char>) -> Seq<char> {
    "missing value for `"@ + f + "`"@
}

pub open spec fn unknown_argument_message(f: Seq<char>) -> Seq<char> {
    "unknown argument `"@ + f + "`"@
}

/// The command the arguments from position `i` on give, starting from `a`:
/// `-h`/`--help` asks for help at once; a flag that takes a value consumes
/// the next argument; anything unknown is an error.
pub open spec fn parsed_from(argv: Seq<Seq<char>>, i: int, a: ArgsView) -> CommandView
    decreases argv.len() - i,
{
    if i < 0 || i >= argv.len() {
        CommandView::Run(a)
    } else {
        let arg = argv[i];
        if arg == "-h"@ || arg == "--help"@ {
            CommandView::Help
        } else if takes_value(arg) {
            if i + 1 >= argv.len() {
                CommandView::Failed(missing_value_message(arg))
            } else {
                parsed_from(argv, i + 2, with_value(a, arg, argv[i + 1]))
            }
        } else if arg == "--submit"@ {
            parsed_from(argv, i + 1, ArgsView { submit: true, ..a })
        } else if arg == "--json"@ {
            parsed_from(argv, i + 1, ArgsView { json: true, ..a })
        } else {
            CommandView::Failed(unknown_argument_message(arg))
        }
    }
}

fn set_value(args: &mut Args, flag: &str, value: String) -> (known: bool)
    ensures
        known == takes_value(flag@),
        known ==> final(args).view_args() == with_value(old(args).view_args(), flag@, value@),
        !known ==> *final(args) == *old(args),
{
    if str_eq(flag, "--contract") {
        args.contract = Some(value);
    } else if str_eq(flag, "--config") {
        args.config = Some(value);
    } else if str_eq(flag, "--rpc-url") {
        args.rpc_url = Some(value);
    } else if str_eq(flag, "--network-passphrase") {
        args.network_passphrase = Some(value);
    } else if str_eq(flag, "--source") {
        args.source = Some(value);
    } else if str_eq(flag, "--signer-secret") {
        args.signer_secret = Some(value);
    } else if str_eq(flag, "--key") {
        let ghost before = args.keys.deep_view();
        args.keys.push(value);
        proof {
            assert(args.keys.deep_view() =~= before.push(value@));
        }
    } else if str_eq(flag, "--wasm-hash") {
        args.wasm_hash = Some(value);
    } else if str_eq(flag, "--out") {
        args.out = Some(value);
    } else {
        return false;
    }
    true
}

/// Parses the planner's arguments (without the program name).
pub fn parse_args(argv: &Vec<String>) -> (r: Result<Command, String>)
    ensures
        match parsed_from(argv.deep_view(), 0, no_args()) {
            CommandView::Run(a) => r matches Ok(Command::Run(args)) && args.view_args() == a,
            CommandView::Help => r matches Ok(Command::Help),
            CommandView::Failed(e) => r matches Err(m) && m@ == e,
        },
{
    let mut args = Args {
        contract: None,
        config: None,
        rpc_url: None,
        network_passphrase: None,
        source: None,
        signer_secret: None,
        keys: Vec::new(),
        wasm_hash: None,
        submit: false,
        out: None,
        json: false,
    };
    proof {
        assert(args.view_args().keys =~= Seq::<Seq<char>>::empty());
        assert(args.view_args() == no_args());
    }
    let ghost all = argv.deep_view();
    let mut i: usize = 0;
    while i < argv.len()
        invariant
            all == argv.deep_view(),
            i <= argv.len(),
            parsed_from(all, 0, no_args()) == parsed_from(all, i as int, args.view_args()),
        decreases argv.len() - i,
    {
        let arg = argv[i].as_str();
        proof {
            assert(all[i as int] == argv@[i as int]@);
        }
        if str_eq(arg, "-h") || str_eq(arg, "--help") {
            return Ok(Command::Help);
        }
        if i + 1 < argv.len() {
            let value = argv[i + 1].clone();
            proof {
                assert(all[i + 1] == argv@[i + 1]@);
            }
            if set_value(&mut args, arg, value) {
                i = i + 2;
                continue;
            }
        } else if str_eq(arg, "--contract") || str_eq(arg, "--config") || str_eq(arg, "--rpc-url")
            || str_eq(arg, "--network-passphrase") || str_eq(arg, "--source") || str_eq(
            arg,
            "--signer-secret",
        ) || str_eq(arg, "--key") || str_eq(arg, "--wasm-hash") || str_eq(arg, "--out") {
            let msg = concat3("missing value for `", arg, "`");
            proof {
                reveal_strlit("missing value for `");
                reveal_strlit("`");
            }
            return Err(msg);
        }
        if str_eq(arg, "--submit") {
            args.submit = true;
        } else if str_eq(arg, "--json") {
            args.json = true;
        } else {
            let msg = concat3("unknown argument `", arg, "`");
            proof {
                reveal_strlit("unknown argument `");
                reveal_strlit("`");
            }
            return Err(msg);
        }
        i = i + 1;
    }
    Ok(Command::Run(args))
}

/// Fills the options the command line left unset from the environment
/// (`SOROBAN_RPC_URL`, `SOROBAN_NETWORK_PASSPHRASE`, `SOROBAN_SIGNER_SECRET`).
pub fn with_env(
    args: Args,
    rpc_url: Option<String>,
    network_passphrase: Option<String>,
    signer_secret: Option<String>,
) -> (r: Args)
    ensures
        r.view_args() == (ArgsView {
            rpc_url: if args.rpc_url is Some {
                args.view_args().rpc_url
            } else {
                rpc_url.deep_view()
            },
            network_passphrase: if args.network_passphrase is Some {
                args.view_args().network_passphrase
            } else {
                network_passphrase.deep_view()
            },
            signer_secret: if args.signer_secret is Some {
                args.view_args().signer_secret
            } else {
                signer_secret.deep_view()
            },
            ..args.view_args()
        }),
{
    let mut args = args;
    if args.rpc_url.is_none() {
        args.rpc_url = rpc_url;
    }
    if args.network_passphrase.is_none() {
        args.network_passphrase = network_passphrase;
    }
    if args.signer_secret.is_none() {
        args.signer_secret = signer_secret;
    }
    args
}


/// What single-contract mode needs from the options.
pub struct SingleRun {
    pub contract: String,
    pub rpc_url: String,
    pub network_passphrase: String,
}

/// The first option single-contract mode is missing, if any.
pub open spec fn single_run_error(a: ArgsView) -> Option<Seq<char>> {
    if a.contract is None {
        Some("--contract is required"@)
    } else if a.rpc_url is None {
        Some("--rpc-url is required"@)
    } else if a.network_passphrase is None {
        Some("--network-passphrase is required"@)
    } else {
        None
    }
}

/// The contract, RPC endpoint and passphrase of single-contract mode; each
/// is required, and the first missing one is reported.
pub fn single_run(args: &Args) -> (r: Result<SingleRun, String>)
    ensures
        match single_run_error(args.view_args()) {
            Some(e) => r matches Err(m) && m@ == e,
            None => r matches Ok(run) && Some(run.contract@) == args.view_args().contract && Some(
                run.rpc_url@,
            ) == args.view_args().rpc_url && Some(run.network_passphrase@)
                == args.view_args().network_passphrase,
        },
{
    let contract = match &args.contract {
        Some(c) => c.clone(),
        None => {
            proof {
                reveal_strlit("--contract is required");
            }
            return Err(String::from_str("--contract is required"));
        },
    };
    let rpc_url = match &args.rpc_url {
        Some(u) => u.clone(),
        None => {
            proof {
                reveal_strlit("--rpc-url is required");
            }
            return Err(String::from_str("--rpc-url is required"));
        },
    };
    let network_passphrase = match &args.network_passphrase {
        Some(p) => p.clone(),
        None => {
            proof {
                reveal_strlit("--network-passphrase is required");
            }
            return Err(String::from_str("--network-passphrase is required"));
        },
    };
    Ok(SingleRun { contract, rpc_url, network_passphrase })
}

/// One contract of a batch file.
pub struct BatchContract {
    pub contract_id: String,
    pub keys: Vec<String>,
    pub wasm_hash: Option<String>,
}

/// A batch file.
pub struct BatchConfig {
    pub rpc_url: String,
    pub network_passphrase: String,
    pub source: Option<String>,
    pub signer_secret: Option<String>,
    pub submit: bool,
    pub contracts: Vec<BatchContract>,
}

/// The settings of a batch run.
pub struct BatchSettings {
    pub rpc_url: String,
    pub network_passphrase: String,
    pub signer_secret: Option<String>,
    pub source: Option<String>,
    pub submit: bool,
}

pub open spec fn no_contracts_message(path: Seq<char>) -> Seq<char> {
    "config "@ + path + " lists no contracts"@
}

/// The first option, or else the file's value.
pub open spec fn either(flag: Option<Seq<char>>, file: Option<Seq<char>>) -> Option<Seq<char>> {
    if flag is Some {
        flag
    } else {
        file
    }
}

fn first_of(flag: &Option<String>, file: &Option<String>) -> (r: Option<String>)
    ensures
        r.deep_view() == either(flag.deep_view(), file.deep_view()),
{
    match flag {
        Some(f) => Some(f.clone()),
        None => match file {
            Some(g) => Some(g.clone()),
            None => None,
        },
    }
}

/// The settings of a batch run read from `path`: a file listing no contract
/// is refused; otherwise the command-line options override the file, and
/// submission is on when either asks for it.
pub fn batch_settings(args: &Args, path: &str, config: &BatchConfig) -> (r: Result<BatchSettings, String>)
    ensures
        config.contracts.len() == 0 ==> (r matches Err(m) && m@ == no_contracts_message(path@)),
        config.contracts.len() > 0 ==> (r matches Ok(s) && Some(s.rpc_url@) == either(
            args.view_args().rpc_url,
            Some(config.rpc_url@),
        ) && Some(s.network_passphrase@) == either(
            args.view_args().network_passphrase,
            Some(config.network_passphrase@),
        ) && s.signer_secret.deep_view() == either(
            args.view_args().signer_secret,
            config.signer_secret.deep_view(),
        ) && s.source.deep_view() == either(args.view_args().source, config.source.deep_view())
            && s.submit == (args.submit || config.submit)),
{
    if config.contracts.len() == 0 {
        let msg = concat3("config ", path, " lists no contracts");
        proof {
            reveal_strlit("config ");
            reveal_strlit(" lists no contracts");
        }
        return Err(msg);
    }
    let rpc_url = match &args.rpc_url {
        Some(u) => u.clone(),
        None => config.rpc_url.clone(),
    };
    let network_passphrase = match &args.network_passphrase {
        Some(p) => p.clone(),
        None => config.network_passphrase.clone(),
    };
    Ok(
        BatchSettings {
            rpc_url,
            network_passphrase,
            signer_secret: first_of(&args.signer_secret, &config.signer_secret),
            source: first_of(&args.source, &config.source),
            submit: args.submit || config.submit,
        },
    )
}

pub open spec fn submit_needs_secret_message() -> Seq<char> {
    "--submit requires --signer-secret"@
}

/// The secret to sign with: none without `--submit`; with it, the signer
/// secret is required.
pub fn signing_secret(submit: bool, signer_secret: &Option<String>) -> (r: Result<Option<String>, String>)
    ensures
        !submit ==> (r matches Ok(s) && s is None),
        submit && signer_secret is None ==> (r matches Err(m) && m@ == submit_needs_secret_message()),
        submit && signer_secret is Some ==> (r matches Ok(s) && s.deep_view()
            == signer_secret.deep_view()),
{
    if !submit {
        return Ok(None);
    }
    match signer_secret {
        Some(s) => Ok(Some(s.clone())),
        None => {
            proof {
                reveal_strlit("--submit requires --signer-secret");
            }
            Err(String::from_str("--submit requires --signer-secret"))
        },
    }
}

pub open spec fn batch_summary_text(total: nat, failed: nat) -> Seq<char> {
    decimal(total) + " contract(s): "@ + decimal((total - failed) as nat) + " ok, "@ + decimal(failed)
        + " failed"@
}

/// The closing line of a batch run: how many contracts were planned and how
/// many of them failed.
pub fn batch_summary(total: usize, failed: usize) -> (r: String)
    requires
        failed <= total,
    ensures
        r@ == batch_summary_text(total as nat, failed as nat),
{
    let t = u64_to_string(total as u64);
    let ok = u64_to_string((total - failed) as u64);
    let f = u64_to_string(failed as u64);
    let head = concat3(t.as_str(), " contract(s): ", ok.as_str());
    let mid = concat3(head.as_str(), " ok, ", f.as_str());
    let r = concat(mid.as_str(), " failed");
    proof {
        reveal_strlit(" contract(s): ");
        reveal_strlit(" ok, ");
        reveal_strlit(" failed");
    }
    r
}

} // verus!
