//! The storage linter's command line and the outcome of a run.

use vstd::prelude::*;
use crate::lints::{Finding, FindingView, LintOptions};
use crate::lints::rules::{Severity, severity_name};
use crate::text::{concat, concat3, decimal, str_eq, u64_to_string};

verus! {

/// The linter's help text, printed by `--help`.
pub const LINT_HELP: &'static str = "cargo soroban-lint — Soroban storage static analysis

USAGE:
    cargo soroban-lint [OPTIONS] [PATHS]...

ARGS:
    <PATHS>...    Directories to scan for .rs files (default: ./src if it
                  exists, otherwise the current directory)

OPTIONS:
    --deny-warnings    Fail the run on warnings as well as errors
    --json             Emit findings as a JSON array
    --ignore <RULE>    Skip a rule by name (repeatable)
    --version          Print version and exit
    -h, --help         Print help and exit

RULES:
    temporary_critical_type   error    critical data in temporary storage
    lifecycle_mismatch        error    storage! key used via wrong lifecycle
    missing_ttl_extension     warning  write path without TTL extension
    instance_storage_bloat    warning  unbounded/looped instance storage
    temporary_ttl_exceeded    warning  temporary extension beyond network max
    persistent_ttl_exceeded   warning  persistent/instance extension beyond max

EXIT CODES:
    0    clean (or warnings only, without --deny-warnings)
    1    lint errors found (or warnings with --deny-warnings)
    2    usage error
";

/// Returns the help text.
pub fn help() -> (r: &'static str)
    ensures
        r@ == LINT_HELP@,
{
    LINT_HELP
}


/// What the linter's command line asks for.
pub enum LintCommand {
    /// Scan these paths (none given: the default path) with these options,
    /// as JSON when `json` is set.
    Run { paths: Vec<String>, opts: LintOptions, json: bool },
    /// Print the version and exit.
    Version,
    /// Print the help text and exit.
    Help,
}

/// The command, as mathematical values.
pub enum LintCommandView {
    Run { paths: Seq<Seq<char>>, deny_warnings: bool, ignored: Seq<Seq<char>>, json: bool },
    Version,
    Help,
    Failed(Seq<char>),
}

pub open spec fn unknown_option_text(f: Seq<char>) -> Seq<char> {
    "unknown option `"@ + f + "` (see --help)"@
}

pub open spec fn ignore_needs_rule_message() -> Seq<char> {
    "--ignore requires a rule name"@
}

/// The command the arguments from position `i` on give, from the options
/// gathered so far: `--ignore` consumes the next argument whatever it is,
/// `--version` and `--help` stop at once, another argument starting with `-`
/// is an error, and anything else is a path.
pub open spec fn lint_parsed_from(
    argv: Seq<Seq<char>>,
    i: int,
    paths: Seq<Seq<char>>,
    deny: bool,
    ignored: Seq<Seq<char>>,
    json: bool,
) -> LintCommandView
    decreases argv.len() - i,
{
    if i < 0 || i >= argv.len() {
        LintCommandView::Run { paths, deny_warnings: deny, ignored, json }
    } else {
        let arg = argv[i];
        if arg == "--deny-warnings"@ {
            lint_parsed_from(argv, i + 1, paths, true, ignored, json)
        } else if arg == "--json"@ {
            lint_parsed_from(argv, i + 1, paths, deny, ignored, true)
        } else if arg == "--ignore"@ {
            if i + 1 >= argv.len() {
                LintCommandView::Failed(ignore_needs_rule_message())
            } else {
                lint_parsed_from(argv, i + 2, paths, deny, ignored.push(argv[i + 1]), json)
            }
        } else if arg == "--version"@ {
            LintCommandView::Version
        } else if arg == "-h"@ || arg == "--help"@ {
            LintCommandView::Help
        } else if arg.len() > 0 && arg[0] == '-' {
            LintCommandView::Failed(unknown_option_text(arg))
        } else {
            lint_parsed_from(argv, i + 1, paths.push(arg), deny, ignored, json)
        }
    }
}

/// Parses the linter's arguments (without the program name).
pub fn parse_args(argv: &Vec<String>) -> (r: Result<LintCommand, String>)
    ensures
        match lint_parsed_from(argv.deep_view(), 0, Seq::empty(), false, Seq::empty(), false) {
            LintCommandView::Run { paths, deny_warnings, ignored, json } => r matches Ok(
                LintCommand::Run { paths: p, opts, json: j },
            ) && p.deep_view() == paths && opts.deny_warnings == deny_warnings
                && opts.ignored_rules.deep_view() == ignored && j == json,
            LintCommandView::Version => r matches Ok(LintCommand::Version),
            LintCommandView::Help => r matches Ok(LintCommand::Help),
            LintCommandView::Failed(e) => r matches Err(m) && m@ == e,
        },
{
    let ghost all = argv.deep_view();
    let mut paths: Vec<String> = Vec::new();
    let mut opts = LintOptions { deny_warnings: false, ignored_rules: Vec::new() };
    let mut json = false;
    proof {
        assert(paths.deep_view() =~= Seq::<Seq<char>>::empty());
        assert(opts.ignored_rules.deep_view() =~= Seq::<Seq<char>>::empty());
    }
    let mut i: usize = 0;
    while i < argv.len()
        invariant
            all == argv.deep_view(),
            i <= argv.len(),
            lint_parsed_from(all, 0, Seq::empty(), false, Seq::empty(), false) == lint_parsed_from(
                all,
                i as int,
                paths.deep_view(),
                opts.deny_warnings,
                opts.ignored_rules.deep_view(),
                json,
            ),
        decreases argv.len() - i,
    {
        let arg = argv[i].as_str();
        proof {
            assert(all[i as int] == argv@[i as int]@);
        }
        if str_eq(arg, "--deny-warnings") {
            opts.deny_warnings = true;
        } else if str_eq(arg, "--json") {
            json = true;
        } else if str_eq(arg, "--ignore") {
            if i + 1 >= argv.len() {
                proof {
                    reveal_strlit("--ignore requires a rule name");
                }
                return Err(String::from_str("--ignore requires a rule name"));
            }
            let ghost before = opts.ignored_rules.deep_view();
            opts.ignored_rules.push(argv[i + 1].clone());
            proof {
                assert(all[i + 1] == argv@[i + 1]@);
                assert(opts.ignored_rules.deep_view() =~= before.push(all[i + 1]));
            }
            i = i + 2;
            continue;
        } else if str_eq(arg, "--version") {
            return Ok(LintCommand::Version);
        } else if str_eq(arg, "-h") || str_eq(arg, "--help") {
            return Ok(LintCommand::Help);
        } else if starts_with_dash(arg) {
            let msg = concat3("unknown option `", arg, "` (see --help)");
            proof {
                reveal_strlit("unknown option `");
                reveal_strlit("` (see --help)");
            }
            return Err(msg);
        } else {
            let ghost before = paths.deep_view();
            paths.push(argv[i].clone());
            proof {
                assert(paths.deep_view() =~= before.push(all[i as int]));
            }
        }
        i = i + 1;
    }
    Ok(LintCommand::Run { paths, opts, json })
}

fn starts_with_dash(s: &str) -> (r: bool)
    ensures
        r == (s@.len() > 0 && s@[0] == '-'),
{
    let mut it = s.chars();
    match it.next() {
        Some(c) => c == '-',
        None => false,
    }
}

/// The path scanned when none is given: `src` when it is a directory,
/// otherwise the current directory.
pub fn default_path(src_is_dir: bool) -> (r: &'static str)
    ensures
        r@ == (if src_is_dir {
            "src"@
        } else {
            "."@
        }),
{
    if src_is_dir {
        proof {
            reveal_strlit("src");
        }
        "src"
    } else {
        proof {
            reveal_strlit(".");
        }
        "."
    }
}

/// How many findings have severity `s`.
pub open spec fn count_severity(fs: Seq<FindingView>, s: Severity) -> nat
    decreases fs.len(),
{
    if fs.len() == 0 {
        0
    } else {
        count_severity(fs.drop_last(), s) + if fs.last().severity == s {
            1nat
        } else {
            0nat
        }
    }
}

/// The totals of a run and whether it failed.
#[derive(Clone, Copy, Debug, PartialEq, Eq)]
pub struct RunSummary {
    pub errors: usize,
    pub warnings: usize,
    pub failed: bool,
}

/// Counts the errors and warnings of a run; it fails on any error, and on
/// any warning with `--deny-warnings`.
pub fn summarize(findings: &Vec<Finding>, deny_warnings: bool) -> (r: RunSummary)
    ensures
        r.errors == count_severity(findings@.map_values(|f: Finding| f@), Severity::Error),
        r.warnings == count_severity(findings@.map_values(|f: Finding| f@), Severity::Warning),
        r.failed == (r.errors > 0 || (deny_warnings && r.warnings > 0)),
{
    let ghost views = findings@.map_values(|f: Finding| f@);
    let mut errors: usize = 0;
    let mut warnings: usize = 0;
    let mut i: usize = 0;
    while i < findings.len()
        invariant
            views == findings@.map_values(|f: Finding| f@),
            i <= findings.len(),
            errors == count_severity(views.take(i as int), Severity::Error),
            warnings == count_severity(views.take(i as int), Severity::Warning),
            errors + warnings == i,
        decreases findings.len() - i,
    {
        proof {
            assert(views.take(i + 1).drop_last() =~= views.take(i as int));
            assert(views.take(i + 1).last() == findings@[i as int]@);
        }
        match findings[i].severity {
            Severity::Error => errors = errors + 1,
            Severity::Warning => warnings = warnings + 1,
        }
        i = i + 1;
    }
    proof {
        assert(views.take(findings.len() as int) =~= views);
    }
    RunSummary { errors, warnings, failed: errors > 0 || (deny_warnings && warnings > 0) }
}

/// A GitHub Actions annotation for a finding.
pub open spec fn annotation_text(f: FindingView) -> Seq<char> {
    "::"@ + severity_name(f.severity) + " file="@ + f.path + ",line="@ + decimal(f.line as nat)
        + ",col="@ + decimal(f.column as nat) + "::["@ + severity_name(f.severity) + "] "@
        + f.message + " (rule: "@ + f.rule + ")"@
}

/// The GitHub Actions annotation line of a finding.
pub fn annotation(f: &Finding) -> (r: String)
    ensures
        r@ == annotation_text(f@),
{
    let mut s = String::from_str("::");
    s.append(f.severity.as_str());
    s.append(" file=");
    s.append(f.path.as_str());
    s.append(",line=");
    let l = u64_to_string(f.line as u64);
    s.append(l.as_str());
    s.append(",col=");
    let c = u64_to_string(f.column as u64);
    s.append(c.as_str());
    s.append("::[");
    s.append(f.severity.as_str());
    s.append("] ");
    s.append(f.message.as_str());
    s.append(" (rule: ");
    s.append(f.rule);
    s.append(")");
    proof {
        reveal_strlit("::");
        reveal_strlit(" file=");
        reveal_strlit(",line=");
        reveal_strlit(",col=");
        reveal_strlit("::[");
        reveal_strlit("] ");
        reveal_strlit(" (rule: ");
        reveal_strlit(")");
    }
    s
}

/// The closing line of a run.
pub open spec fn summary_text(s: RunSummary, findings: nat, files: nat) -> Seq<char> {
    (if s.failed {
        "storage lint failed:"@
    } else {
        "storage lint finished:"@
    }) + " "@ + decimal(findings) + " in "@ + decimal(files) + " file(s): "@ + decimal(
        s.errors as nat,
    ) + " error(s), "@ + decimal(s.warnings as nat) + " warning(s)"@
}

/// The closing line of a run over `files` files with `findings` findings.
pub fn summary_line(s: RunSummary, findings: usize, files: usize) -> (r: String)
    ensures
        r@ == summary_text(s, findings as nat, files as nat),
{
    let mut out = if s.failed {
        String::from_str("storage lint failed:")
    } else {
        String::from_str("storage lint finished:")
    };
    out.append(" ");
    let n = u64_to_string(findings as u64);
    out.append(n.as_str());
    out.append(" in ");
    let m = u64_to_string(files as u64);
    out.append(m.as_str());
    out.append(" file(s): ");
    let e = u64_to_string(s.errors as u64);
    out.append(e.as_str());
    out.append(" error(s), ");
    let w = u64_to_string(s.warnings as u64);
    out.append(w.as_str());
    out.append(" warning(s)");
    proof {
        reveal_strlit("storage lint failed:");
        reveal_strlit("storage lint finished:");
        reveal_strlit(" ");
        reveal_strlit(" in ");
        reveal_strlit(" file(s): ");
        reveal_strlit(" error(s), ");
        reveal_strlit(" warning(s)");
    }
    out
}

} // verus!
