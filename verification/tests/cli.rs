use soroban_storage::cli::keeper::{self, KeeperCommand};
use soroban_storage::cli::lint::{self, LintCommand};
use soroban_storage::cli::planner::{
    self, batch_settings, batch_summary, signing_secret, single_run, with_env, Args, BatchConfig,
    BatchContract, Command,
};

fn argv(items: &[&str]) -> Vec<String> {
    items.iter().map(|s| s.to_string()).collect()
}

fn run_args(items: &[&str]) -> Args {
    match planner::parse_args(&argv(items)) {
        Ok(Command::Run(a)) => a,
        Ok(Command::Help) => panic!("unexpected help"),
        Err(e) => panic!("unexpected error: {e}"),
    }
}

#[test]
fn planner_flags() {
    let a = run_args(&[
        "--contract", "C1", "--key", "K1", "--submit", "--key", "K2", "--json", "--out", "o.xdr",
    ]);
    assert_eq!(a.contract.as_deref(), Some("C1"));
    assert_eq!(a.keys, vec!["K1".to_string(), "K2".to_string()]);
    assert!(a.submit);
    assert!(a.json);
    assert_eq!(a.out.as_deref(), Some("o.xdr"));
    assert_eq!(a.rpc_url, None);
    assert!(matches!(planner::parse_args(&argv(&["--json", "-h", "--bogus"])), Ok(Command::Help)));
    assert_eq!(
        planner::parse_args(&argv(&["--contract"])).err(),
        Some("missing value for `--contract`".to_string())
    );
    assert_eq!(
        planner::parse_args(&argv(&["--bogus"])).err(),
        Some("unknown argument `--bogus`".to_string())
    );
    assert!(planner::help().starts_with("soroban-restore-planner"));
}

#[test]
fn planner_environment_and_modes() {
    let a = with_env(
        run_args(&["--rpc-url", "flag"]),
        Some("env-url".to_string()),
        Some("env-pass".to_string()),
        None,
    );
    assert_eq!(a.rpc_url.as_deref(), Some("flag"));
    assert_eq!(a.network_passphrase.as_deref(), Some("env-pass"));
    assert_eq!(a.signer_secret, None);
    assert_eq!(single_run(&a).err(), Some("--contract is required".to_string()));
    let full = run_args(&["--contract", "C", "--rpc-url", "u", "--network-passphrase", "p"]);
    let run = single_run(&full).ok().unwrap();
    assert_eq!((run.contract.as_str(), run.rpc_url.as_str()), ("C", "u"));

    let file = BatchConfig {
        rpc_url: "file-url".to_string(),
        network_passphrase: "file-pass".to_string(),
        source: Some("G-file".to_string()),
        signer_secret: None,
        submit: true,
        contracts: vec![BatchContract {
            contract_id: "C".to_string(),
            keys: vec![],
            wasm_hash: None,
        }],
    };
    let s = batch_settings(&run_args(&["--rpc-url", "flag-url"]), "c.json", &file).ok().unwrap();
    assert_eq!(s.rpc_url, "flag-url");
    assert_eq!(s.network_passphrase, "file-pass");
    assert_eq!(s.source.as_deref(), Some("G-file"));
    assert!(s.submit);
    let empty = BatchConfig { contracts: vec![], ..file };
    assert_eq!(
        batch_settings(&run_args(&[]), "c.json", &empty).err(),
        Some("config c.json lists no contracts".to_string())
    );
    assert_eq!(signing_secret(false, &None), Ok(None));
    assert_eq!(
        signing_secret(true, &None),
        Err("--submit requires --signer-secret".to_string())
    );
    assert_eq!(batch_summary(3, 1), "3 contract(s): 2 ok, 1 failed");
}

#[test]
fn lint_flags() {
    match lint::parse_args(&argv(&["--deny-warnings", "--ignore", "--json", "a", "b"])) {
        Ok(LintCommand::Run { paths, opts, json }) => {
            assert_eq!(paths, vec!["a".to_string(), "b".to_string()]);
            assert!(opts.deny_warnings);
            assert_eq!(opts.ignored_rules, vec!["--json".to_string()]);
            assert!(!json);
        }
        _ => panic!("expected a run"),
    }
    assert!(matches!(lint::parse_args(&argv(&["--version"])), Ok(LintCommand::Version)));
    assert!(matches!(lint::parse_args(&argv(&["--help"])), Ok(LintCommand::Help)));
    assert_eq!(
        lint::parse_args(&argv(&["-x"])).err(),
        Some("unknown option `-x` (see --help)".to_string())
    );
    assert_eq!(
        lint::parse_args(&argv(&["--ignore"])).err(),
        Some("--ignore requires a rule name".to_string())
    );
    assert!(lint::help().contains("persistent_ttl_exceeded"));
}

#[test]
fn keeper_flags() {
    assert!(matches!(keeper::parse_args(&argv(&[])), KeeperCommand::Help));
    assert!(matches!(keeper::parse_args(&argv(&["-h"])), KeeperCommand::Help));
    match keeper::parse_args(&argv(&["--config", "c.json"])) {
        KeeperCommand::Run(p) => assert_eq!(p, "c.json"),
        _ => panic!("expected a run"),
    }
    assert!(matches!(keeper::parse_args(&argv(&["c.json"])), KeeperCommand::Usage));
    assert!(keeper::help().contains("--config"));
}
