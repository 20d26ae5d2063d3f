//! The rent keeper's command line.

use vstd::prelude::*;
use crate::text::str_eq;

verus! {

/// The keeper's help text, printed by `--help`.
pub const KEEPER_HELP: &'static str = "soroban-rent-keeper — extend Soroban contract TTLs before eviction

USAGE:
    soroban-rent-keeper --config <config.json>

ENVIRONMENT:
    SOROBAN_RPC_URL         override rpc_url
    SOROBAN_SIGNER_SECRET   override signer_secret

OPTIONS:
    -c, --config <PATH>   Path to the JSON configuration (required)
    -h, --help            Print help and exit
";

/// Returns the help text.
pub fn help() -> (r: &'static str)
    ensures
        r@ == KEEPER_HELP@,
{
    KEEPER_HELP
}


/// What the keeper's command line asks for.
pub enum KeeperCommand {
    /// Print the help text and exit successfully.
    Help,
    /// Run with the configuration at this path.
    Run(String),
    /// Print the usage line and exit with a usage error.
    Usage,
}

/// The command, as mathematical values.
pub enum KeeperCommandView {
    Help,
    Run(Seq<char>),
    Usage,
}

/// No argument or a lone `-h`/`--help` asks for help; `-c`/`--config` and a
/// path runs; anything else is a usage error.
pub open spec fn keeper_command(argv: Seq<Seq<char>>) -> KeeperCommandView {
    if argv.len() == 0 {
        KeeperCommandView::Help
    } else if argv.len() == 1 && (argv[0] == "-h"@ || argv[0] == "--help"@) {
        KeeperCommandView::Help
    } else if argv.len() == 2 && (argv[0] == "-c"@ || argv[0] == "--config"@) {
        KeeperCommandView::Run(argv[1])
    } else {
        KeeperCommandView::Usage
    }
}

/// Parses the keeper's arguments (without the program name).
pub fn parse_args(argv: &Vec<String>) -> (r: KeeperCommand)
    ensures
        match keeper_command(argv.deep_view()) {
            KeeperCommandView::Help => r is Help,
            KeeperCommandView::Run(p) => r matches KeeperCommand::Run(q) && q@ == p,
            KeeperCommandView::Usage => r is Usage,
        },
{
    proof {
        if argv.len() > 0 {
            assert(argv.deep_view()[0] == argv@[0]@);
        }
        if argv.len() > 1 {
            assert(argv.deep_view()[1] == argv@[1]@);
        }
    }
    if argv.len() == 0 {
        KeeperCommand::Help
    } else if argv.len() == 1 && (str_eq(argv[0].as_str(), "-h") || str_eq(argv[0].as_str(), "--help")) {
        KeeperCommand::Help
    } else if argv.len() == 2 && (str_eq(argv[0].as_str(), "-c") || str_eq(argv[0].as_str(), "--config")) {
        KeeperCommand::Run(argv[1].clone())
    } else {
        KeeperCommand::Usage
    }
}

} // verus!
