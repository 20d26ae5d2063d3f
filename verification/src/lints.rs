//! Static analysis of Soroban contract storage: the lint model, the rules,
//! and the findings they produce for one source file.

pub mod parse;
pub mod rules;
pub mod scan;
pub mod walk;
pub mod items;

use vstd::prelude::*;
use crate::lints::parse::FileModel;
use crate::lints::rules::{
    RuleFinding, RuleFindingView, Severity, all_rules, findings_view, rules_findings, run_all,
    severity_name, lemma_ignored_rules_report_nothing,
};
use crate::text::{chars_of, decimal, lines_of, str_eq, trim, trimmed_line, u64_to_string};

verus! {

/// Options controlling a lint run.
#[derive(Debug, Clone)]
pub struct LintOptions {
    /// Treat warnings as failures (affects the exit code, not the findings).
    pub deny_warnings: bool,
    /// Rules to skip by name.
    pub ignored_rules: Vec<String>,
}

impl Default for LintOptions {
    /// No rule ignored; warnings do not fail the run.
    fn default() -> (r: Self)
        ensures
            !r.deny_warnings,
            r.ignored_rules@.len() == 0,
    {
        LintOptions { deny_warnings: false, ignored_rules: Vec::new() }
    }
}

/// A lint finding with file context attached.
#[derive(Debug, Clone, PartialEq, Eq)]
pub struct Finding {
    /// The rule's name.
    pub rule: &'static str,
    /// The rule's severity.
    pub severity: Severity,
    /// The file the finding is in.
    pub path: String,
    /// Line of the offending call (1-based).
    pub line: usize,
    /// Column of the offending call.
    pub column: usize,
    /// What is wrong and how to fix it.
    pub message: String,
    /// The offending source line, trimmed.
    pub snippet: String,
}

/// A finding as plain values.
pub struct FindingView {
    /// The rule's name.
    pub rule: Seq<char>,
    /// The rule's severity.
    pub severity: Severity,
    /// The file.
    pub path: Seq<char>,
    /// The line.
    pub line: usize,
    /// The column.
    pub column: usize,
    /// The message.
    pub message: Seq<char>,
    /// The trimmed source line.
    pub snippet: Seq<char>,
}

impl View for Finding {
    type V = FindingView;

    open spec fn view(&self) -> FindingView {
        FindingView {
            rule: self.rule@,
            severity: self.severity,
            path: self.path@,
            line: self.line,
            column: self.column,
            message: self.message@,
            snippet: self.snippet@,
        }
    }
}

/// The one-line rendering of a finding:
/// `path:line:column: [severity] message (rule: name)`.
pub open spec fn rendered(f: FindingView) -> Seq<char> {
    f.path + ":"@ + decimal(f.line as nat) + ":"@ + decimal(f.column as nat) + ": ["@
        + severity_name(f.severity) + "] "@ + f.message + " (rule: "@ + f.rule + ")"@
}

impl Finding {
    /// Renders one line of human-readable output.
    pub fn render(&self) -> (r: String)
        ensures
            r@ == rendered(self@),
    {
        let mut s = String::from_str(self.path.as_str());
        s.append(":");
        let l = u64_to_string(self.line as u64);
        s.append(l.as_str());
        s.append(":");
        let c = u64_to_string(self.column as u64);
        s.append(c.as_str());
        s.append(": [");
        s.append(self.severity.as_str());
        s.append("] ");
        s.append(self.message.as_str());
        s.append(" (rule: ");
        s.append(self.rule);
        s.append(")");
        s
    }
}

/// The trimmed source line `line` (1-based; line 0 reads as line 1), or the
/// empty string past the end of the source.
pub open spec fn snippet_of(source: Seq<char>, line: usize) -> Seq<char> {
    let k = if line == 0 {
        0
    } else {
        line - 1
    };
    if k < lines_of(source).len() {
        trim(lines_of(source)[k])
    } else {
        Seq::<char>::empty()
    }
}

/// A rule finding placed in its file.
pub open spec fn placed(path: Seq<char>, source: Seq<char>, rf: RuleFindingView) -> FindingView {
    FindingView {
        rule: rf.rule,
        severity: rf.severity,
        path,
        line: rf.line,
        column: rf.column,
        message: rf.message,
        snippet: snippet_of(source, rf.line),
    }
}

/// The findings for one file: every rule's findings not ignored, rule by
/// rule, each placed in the file with its source line.
pub open spec fn file_findings(path: Seq<char>, source: Seq<char>, model: FileModel, ignored: Seq<Seq<char>>) -> Seq<FindingView> {
    rules_findings(all_rules(), model, ignored).map_values(
        |rf: RuleFindingView| placed(path, source, rf),
    )
}

/// Lints one file, given its path, its source and its storage model.
pub fn lint_model(path: &str, source: &str, model: &FileModel, opts: &LintOptions) -> (r: Vec<Finding>)
    ensures
        r@.map_values(|f: Finding| f@) == file_findings(
            path@,
            source@,
            *model,
            opts.ignored_rules@.map_values(|s: String| s@),
        ),
{
    let mut raw: Vec<RuleFinding> = Vec::new();
    run_all(model, &opts.ignored_rules, &mut raw);
    assert(findings_view(raw@) =~= rules_findings(
        all_rules(),
        *model,
        opts.ignored_rules@.map_values(|s: String| s@),
    ));
    let ghost expected = file_findings(
        path@,
        source@,
        *model,
        opts.ignored_rules@.map_values(|s: String| s@),
    );
    let lines = chars_of(source);
    let mut out: Vec<Finding> = Vec::new();
    let mut i: usize = 0;
    while i < raw.len()
        invariant
            i <= raw.len(),
            lines@ == source@,
            expected == findings_view(raw@).map_values(
                |rf: RuleFindingView| placed(path@, source@, rf),
            ),
            out@.map_values(|f: Finding| f@) == expected.take(i as int),
        decreases raw.len() - i,
    {
        let rf = &raw[i];
        let snippet = trimmed_line(&lines, rf.line.saturating_sub(1));
        let f = Finding {
            rule: rf.rule,
            severity: rf.severity,
            path: String::from_str(path),
            line: rf.line,
            column: rf.column,
            message: rf.message.clone(),
            snippet,
        };
        let ghost before = out@.map_values(|f: Finding| f@);
        out.push(f);
        assert(out@.map_values(|f: Finding| f@) =~= before.push(f@));
        assert(findings_view(raw@)[i as int] == rf@);
        i = i + 1;
        assert(out@.map_values(|f: Finding| f@) =~= expected.take(i as int));
    }
    assert(expected.take(raw.len() as int) =~= expected);
    out
}


/// Whether the directory walk enters a directory of this name: build
/// outputs (`target`, `node_modules`) and hidden directories are skipped.
pub open spec fn enters_directory(name: Seq<char>) -> bool {
    !(name.len() > 0 && name[0] == '.') && name != "target"@ && name != "node_modules"@
}

/// Whether the directory walk enters a directory named `name`.
pub fn descends_into(name: &str) -> (r: bool)
    ensures
        r == enters_directory(name@),
{
    let cs = chars_of(name);
    if cs.len() > 0 && cs[0] == '.' {
        return false;
    }
    !(str_eq(name, "target") || str_eq(name, "node_modules"))
}

/// Whether a file with this extension is linted: only `.rs` files are.
pub fn is_rust_file(extension: Option<&str>) -> (r: bool)
    ensures
        r == (match extension {
            Some(e) => e@ == "rs"@,
            None => false,
        }),
{
    match extension {
        Some(e) => str_eq(e, "rs"),
        None => false,
    }
}


/// The findings of a file never name an ignored rule, every finding is an
/// error exactly when its rule is `temporary_critical_type` or
/// `lifecycle_mismatch`, and each carries the file's path and the trimmed
/// source line it points at.
pub proof fn lemma_file_findings_respect_options(
    path: Seq<char>,
    source: Seq<char>,
    model: FileModel,
    ignored: Seq<Seq<char>>,
)
    ensures
        forall|i: int|
            0 <= i < file_findings(path, source, model, ignored).len() ==> {
                let f = #[trigger] file_findings(path, source, model, ignored)[i];
                &&& !ignored.contains(f.rule)
                &&& (f.severity == Severity::Error <==> (f.rule == "temporary_critical_type"@
                    || f.rule == "lifecycle_mismatch"@))
                &&& f.path == path
                &&& f.snippet == snippet_of(source, f.line)
            },
{
    lemma_ignored_rules_report_nothing(model, ignored);
    let rs = rules_findings(all_rules(), model, ignored);
    assert forall|i: int| 0 <= i < file_findings(path, source, model, ignored).len() implies {
        let f = #[trigger] file_findings(path, source, model, ignored)[i];
        &&& !ignored.contains(f.rule)
        &&& (f.severity == Severity::Error <==> (f.rule == "temporary_critical_type"@
            || f.rule == "lifecycle_mismatch"@))
        &&& f.path == path
        &&& f.snippet == snippet_of(source, f.line)
    } by {
        assert(file_findings(path, source, model, ignored)[i] == placed(path, source, rs[i]));
        assert(rs[i].rule == rs[i].rule);
    }
}

} // verus!
