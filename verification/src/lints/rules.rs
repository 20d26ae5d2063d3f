//! The storage lint rules.
//!
//! Every rule is conservative: when a fact cannot be determined from the
//! model, the rule stays quiet rather than risk a false positive.

use vstd::prelude::*;
use crate::lints::parse::{
    ArgExpr, FileModel, FnStorage, Lifecycle, StorageChain, StorageDecl, lifecycle_word,
};
use crate::text::{
    char_is_alphanumeric, char_is_lowercase, char_is_numeric, char_is_uppercase, chars_of,
    contains_str, decimal, is_alphanumeric, is_lowercase, is_numeric, is_uppercase, join, joined,
    parse_u32, parse_u32_spec, str_eq, string_from_chars, to_lowercase, u64_to_string,
    unicode_lowercase,
};

verus! {

/// Maximum TTL a temporary entry can be extended to (network parameter,
/// ~180 days at ~5s ledgers).
pub const MAX_TEMP_TTL: u32 = 3_110_400;

/// Maximum TTL a persistent or instance entry can be extended to (network
/// parameter, ~1 year at ~5s ledgers).
pub const MAX_PERSISTENT_TTL: u32 = 6_311_390;

/// Instance structs with more fields than this are flagged when written to
/// instance storage.
pub const MAX_INSTANCE_STRUCT_FIELDS: usize = 3;

/// How serious a finding is.
#[derive(Clone, Copy, Debug, PartialEq, Eq, Structural)]
pub enum Severity {
    /// Fails the build.
    Error,
    /// Fails the build only with `--deny-warnings`.
    Warning,
}

/// The name of a severity.
pub open spec fn severity_name(s: Severity) -> Seq<char> {
    match s {
        Severity::Error => "error"@,
        Severity::Warning => "warning"@,
    }
}

impl Severity {
    /// `error` or `warning`.
    pub fn as_str(&self) -> (r: &'static str)
        ensures
            r@ == severity_name(*self),
    {
        match self {
            Severity::Error => "error",
            Severity::Warning => "warning",
        }
    }
}

/// A finding produced by a rule (path and snippet are attached later).
#[derive(Debug, Clone)]
pub struct RuleFinding {
    /// The rule's name.
    pub rule: &'static str,
    /// The rule's severity.
    pub severity: Severity,
    /// Line of the offending call.
    pub line: usize,
    /// Column of the offending call.
    pub column: usize,
    /// What is wrong and how to fix it.
    pub message: String,
}

/// A rule finding as plain values.
pub struct RuleFindingView {
    /// The rule's name.
    pub rule: Seq<char>,
    /// The rule's severity.
    pub severity: Severity,
    /// Line of the offending call.
    pub line: usize,
    /// Column of the offending call.
    pub column: usize,
    /// The message.
    pub message: Seq<char>,
}

impl View for RuleFinding {
    type V = RuleFindingView;

    open spec fn view(&self) -> RuleFindingView {
        RuleFindingView {
            rule: self.rule@,
            severity: self.severity,
            line: self.line,
            column: self.column,
            message: self.message@,
        }
    }
}

/// The views of a list of rule findings.
pub open spec fn findings_view(fs: Seq<RuleFinding>) -> Seq<RuleFindingView> {
    fs.map_values(|f: RuleFinding| f@)
}

// ---------------------------------------------------------------------------
// Words of a type name
// ---------------------------------------------------------------------------

/// Whether `ch` starts a new camel-case word after `cur`.
pub open spec fn word_break(cur: Seq<char>, ch: char) -> bool {
    cur.len() > 0 && (char_is_uppercase(ch) || char_is_numeric(ch)) && (char_is_lowercase(cur.last())
        || char_is_numeric(cur.last()))
}

/// The finished words and the word in progress after reading `s`.
pub open spec fn split_state(s: Seq<char>) -> (Seq<Seq<char>>, Seq<char>)
    decreases s.len(),
{
    if s.len() == 0 {
        (seq![], seq![])
    } else {
        let prev = split_state(s.drop_last());
        let ch = s.last();
        if char_is_alphanumeric(ch) {
            if word_break(prev.1, ch) {
                (prev.0.push(prev.1), seq![ch])
            } else {
                (prev.0, prev.1.push(ch))
            }
        } else if prev.1.len() > 0 {
            (prev.0.push(prev.1), seq![])
        } else {
            prev
        }
    }
}

/// The words of `s` before lowercasing: runs of alphanumeric characters,
/// split again where a capital or digit follows a lowercase letter or digit.
pub open spec fn raw_words(s: Seq<char>) -> Seq<Seq<char>> {
    let st = split_state(s);
    if st.1.len() > 0 {
        st.0.push(st.1)
    } else {
        st.0
    }
}

/// The lowercased camel-case-aware words of `s`.
pub open spec fn spec_split_words(s: Seq<char>) -> Seq<Seq<char>> {
    raw_words(s).map_values(|w: Seq<char>| unicode_lowercase(w))
}

spec fn chars_views(v: Seq<Vec<char>>) -> Seq<Seq<char>> {
    v.map_values(|w: Vec<char>| w@)
}

/// Splits a type or method name into lowercased words, camel-case aware:
/// `TokenBalance` gives `token`, `balance`.
pub fn split_words(s: &str) -> (r: Vec<String>)
    ensures
        r@.map_values(|w: String| w@) == spec_split_words(s@),
{
    let cs = chars_of(s);
    let mut words: Vec<Vec<char>> = Vec::new();
    let mut current: Vec<char> = Vec::new();
    let mut i: usize = 0;
    while i < cs.len()
        invariant
            cs@ == s@,
            i <= cs.len(),
            split_state(cs@.take(i as int)) == (chars_views(words@), current@),
        decreases cs.len() - i,
    {
        let ch = cs[i];
        assert(cs@.take(i + 1).drop_last() =~= cs@.take(i as int));
        assert(cs@.take(i + 1).last() == ch);
        if is_alphanumeric(ch) {
            let mut split = false;
            if current.len() > 0 && (is_uppercase(ch) || is_numeric(ch)) {
                let prev = current[current.len() - 1];
                if is_lowercase(prev) || is_numeric(prev) {
                    split = true;
                }
            }
            if split {
                let ghost before = chars_views(words@);
                words.push(current);
                assert(chars_views(words@) =~= before.push(current@));
                current = Vec::new();
                current.push(ch);
                assert(current@ =~= seq![ch]);
            } else {
                current.push(ch);
            }
        } else if current.len() > 0 {
            let ghost before = chars_views(words@);
            words.push(current);
            assert(chars_views(words@) =~= before.push(current@));
            current = Vec::new();
            assert(current@ =~= Seq::<char>::empty());
        }
        i = i + 1;
    }
    assert(cs@.take(cs.len() as int) =~= cs@);
    if current.len() > 0 {
        let ghost before = chars_views(words@);
        words.push(current);
        assert(chars_views(words@) =~= before.push(current@));
    }
    let mut out: Vec<String> = Vec::new();
    let mut j: usize = 0;
    while j < words.len()
        invariant
            j <= words.len(),
            chars_views(words@) == raw_words(s@),
            out@.map_values(|w: String| w@) == spec_split_words(s@).take(j as int),
        decreases words.len() - j,
    {
        let w = string_from_chars(&words[j]);
        let l = to_lowercase(w.as_str());
        let ghost before = out@.map_values(|w: String| w@);
        out.push(l);
        assert(out@.map_values(|w: String| w@) =~= before.push(l@));
        assert(raw_words(s@)[j as int] == words@[j as int]@);
        j = j + 1;
        assert(out@.map_values(|w: String| w@) =~= spec_split_words(s@).take(j as int));
    }
    assert(spec_split_words(s@).take(words.len() as int) =~= spec_split_words(s@));
    out
}

/// Words that strongly suggest irreplaceable value in a type name.
pub open spec fn critical_hints() -> Seq<Seq<char>> {
    seq![
        "balance"@,
        "amount"@,
        "fund"@,
        "collateral"@,
        "position"@,
        "ledger"@,
        "escrow"@,
        "vault"@,
        "reserve"@,
        "deposit"@,
        "allowance"@,
        "debt"@,
        "credit"@,
        "asset"@,
        "token"@,
        "share"@,
        "reward"@,
        "claim"@,
    ]
}

/// Words that suggest an unbounded collection in a type name.
pub open spec fn collection_words() -> Seq<Seq<char>> {
    seq!["vec"@, "map"@, "string"@, "bytes"@, "set"@, "array"@]
}

/// Whether one of the words of `s` is in `vocabulary`.
pub open spec fn has_word_in(s: Seq<char>, vocabulary: Seq<Seq<char>>) -> bool {
    exists|i: int|
        0 <= i < spec_split_words(s).len() && vocabulary.contains(
            #[trigger] spec_split_words(s)[i],
        )
}

fn any_word_in(s: &str, vocabulary: &Vec<&str>, Ghost(voc): Ghost<Seq<Seq<char>>>) -> (r: bool)
    requires
        vocabulary@.map_values(|w: &str| w@) == voc,
    ensures
        r == has_word_in(s@, voc),
{
    let words = split_words(s);
    let ghost wv = words@.map_values(|w: String| w@);
    let mut i: usize = 0;
    while i < words.len()
        invariant
            i <= words.len(),
            wv == words@.map_values(|w: String| w@),
            wv == spec_split_words(s@),
            vocabulary@.map_values(|w: &str| w@) == voc,
            forall|j: int| 0 <= j < i ==> !voc.contains(#[trigger] wv[j]),
        decreases words.len() - i,
    {
        let mut k: usize = 0;
        while k < vocabulary.len()
            invariant
                k <= vocabulary.len(),
                i < words.len(),
                wv == words@.map_values(|w: String| w@),
                wv == spec_split_words(s@),
                vocabulary@.map_values(|w: &str| w@) == voc,
                forall|m: int| 0 <= m < k ==> voc[m] != wv[i as int],
            decreases vocabulary.len() - k,
        {
            if str_eq(words[i].as_str(), vocabulary[k]) {
                assert(voc[k as int] == wv[i as int]);
                assert(voc.contains(wv[i as int]));
                assert(voc.contains(spec_split_words(s@)[i as int]));
                return true;
            }
            k = k + 1;
        }
        i = i + 1;
    }
    false
}

/// Whether a type name suggests critical, irreplaceable data.
pub open spec fn spec_type_looks_critical(s: Seq<char>) -> bool {
    has_word_in(s, critical_hints())
}

/// Whether a type name suggests an unbounded collection.
pub open spec fn spec_type_looks_collection(s: Seq<char>) -> bool {
    has_word_in(s, collection_words())
}

/// Whether a type name suggests critical, irreplaceable data: one of its
/// words is a critical hint such as `balance`, `amount` or `token`.
pub fn type_looks_critical(type_str: &str) -> (r: bool)
    ensures
        r == spec_type_looks_critical(type_str@),
{
    let hints: Vec<&str> = vec![
        "balance",
        "amount",
        "fund",
        "collateral",
        "position",
        "ledger",
        "escrow",
        "vault",
        "reserve",
        "deposit",
        "allowance",
        "debt",
        "credit",
        "asset",
        "token",
        "share",
        "reward",
        "claim",
    ];
    assert(hints@.map_values(|w: &str| w@) =~= critical_hints());
    any_word_in(type_str, &hints, Ghost(critical_hints()))
}

/// Whether a type name suggests an unbounded collection or large payload
/// (`Vec`, `Map`, `String`, `Bytes`, `Set`, `Array`).
pub fn type_looks_collection(type_str: &str) -> (r: bool)
    ensures
        r == spec_type_looks_collection(type_str@),
{
    let words: Vec<&str> = vec!["vec", "map", "string", "bytes", "set", "array"];
    assert(words@.map_values(|w: &str| w@) =~= collection_words());
    any_word_in(type_str, &words, Ghost(collection_words()))
}

} // verus!

verus! {

// ---------------------------------------------------------------------------
// Value-type and key resolution (best effort, syntax only)
// ---------------------------------------------------------------------------

/// The type bound to `name` by the last binding of that name.
pub open spec fn binding_lookup(bs: Seq<(String, String)>, name: Seq<char>) -> Option<Seq<char>>
    decreases bs.len(),
{
    if bs.len() == 0 {
        None
    } else if bs.last().0@ == name {
        Some(bs.last().1@)
    } else {
        binding_lookup(bs.drop_last(), name)
    }
}

fn lookup_binding(bs: &Vec<(String, String)>, name: &str) -> (r: Option<String>)
    ensures
        match r {
            Some(t) => binding_lookup(bs@, name@) == Some(t@),
            None => binding_lookup(bs@, name@) is None,
        },
{
    let mut i = bs.len();
    assert(bs@.take(i as int) =~= bs@);
    while i > 0
        invariant
            i <= bs.len(),
            binding_lookup(bs@, name@) == binding_lookup(bs@.take(i as int), name@),
        decreases i,
    {
        assert(bs@.take(i as int).drop_last() =~= bs@.take(i - 1));
        if str_eq(bs[i - 1].0.as_str(), name) {
            return Some(bs[i - 1].1.clone());
        }
        i = i - 1;
    }
    None
}

/// The field count of the last struct named `name`.
pub open spec fn field_count_lookup(cs: Seq<(String, usize)>, name: Seq<char>) -> Option<usize>
    decreases cs.len(),
{
    if cs.len() == 0 {
        None
    } else if cs.last().0@ == name {
        Some(cs.last().1)
    } else {
        field_count_lookup(cs.drop_last(), name)
    }
}

fn lookup_field_count(cs: &Vec<(String, usize)>, name: &str) -> (r: Option<usize>)
    ensures
        r == field_count_lookup(cs@, name@),
{
    let mut i = cs.len();
    assert(cs@.take(i as int) =~= cs@);
    while i > 0
        invariant
            i <= cs.len(),
            field_count_lookup(cs@, name@) == field_count_lookup(cs@.take(i as int), name@),
        decreases i,
    {
        assert(cs@.take(i as int).drop_last() =~= cs@.take(i - 1));
        if str_eq(cs[i - 1].0.as_str(), name) {
            return Some(cs[i - 1].1);
        }
        i = i - 1;
    }
    None
}

/// The first declaration of the entry `variant`.
pub open spec fn first_decl(decls: Seq<StorageDecl>, variant: Seq<char>) -> Option<StorageDecl>
    decreases decls.len(),
{
    if decls.len() == 0 {
        None
    } else if decls[0].variant@ == variant {
        Some(decls[0])
    } else {
        first_decl(decls.drop_first(), variant)
    }
}

fn find_decl<'a>(decls: &'a Vec<StorageDecl>, variant: &str) -> (r: Option<&'a StorageDecl>)
    ensures
        match r {
            Some(d) => first_decl(decls@, variant@) == Some(*d),
            None => first_decl(decls@, variant@) is None,
        },
{
    let mut i: usize = 0;
    assert(decls@.skip(0) =~= decls@);
    while i < decls.len()
        invariant
            i <= decls.len(),
            first_decl(decls@, variant@) == first_decl(decls@.skip(i as int), variant@),
        decreases decls.len() - i,
    {
        assert(decls@.skip(i as int).drop_first() =~= decls@.skip(i + 1));
        assert(decls@.skip(i as int)[0] == decls@[i as int]);
        if str_eq(decls[i].variant.as_str(), variant) {
            return Some(&decls[i]);
        }
        i = i + 1;
    }
    assert(decls@.skip(i as int).len() == 0);
    None
}

/// `e` without its leading `&`s.
pub open spec fn unwrap_refs(e: ArgExpr) -> ArgExpr
    decreases e,
{
    match e {
        ArgExpr::Reference(inner) => unwrap_refs(*inner),
        _ => e,
    }
}

/// `e` with calls replaced by their callees, repeatedly.
pub open spec fn unwrap_calls(e: ArgExpr) -> ArgExpr
    decreases e,
{
    match e {
        ArgExpr::Call(callee) => unwrap_calls(*callee),
        _ => e,
    }
}

fn unwrap_refs_exec(e: &ArgExpr) -> (r: &ArgExpr)
    ensures
        *r == unwrap_refs(*e),
    decreases e,
{
    match e {
        ArgExpr::Reference(inner) => unwrap_refs_exec(inner),
        _ => e,
    }
}

fn unwrap_calls_exec(e: &ArgExpr) -> (r: &ArgExpr)
    ensures
        *r == unwrap_calls(*e),
    decreases e,
{
    match e {
        ArgExpr::Call(callee) => unwrap_calls_exec(callee),
        _ => e,
    }
}

/// The `storage!` entry a chain's key names: the last path segment of the
/// first argument once `&` and calls are unwrapped
/// (`&StorageKey::Balance(user)` gives `Balance`), whatever the chain's
/// lifecycle.
pub open spec fn spec_key_variant(c: StorageChain) -> Option<Seq<char>> {
    if c.args@.len() == 0 {
        None
    } else {
        match unwrap_calls(unwrap_refs(c.args@[0])) {
            ArgExpr::Path(p) => Some(p@),
            _ => None,
        }
    }
}

fn key_variant(chain: &StorageChain) -> (r: Option<String>)
    ensures
        match r {
            Some(v) => spec_key_variant(*chain) == Some(v@),
            None => spec_key_variant(*chain) is None,
        },
{
    if chain.args.len() == 0 {
        return None;
    }
    let e = unwrap_calls_exec(unwrap_refs_exec(&chain.args[0]));
    match e {
        ArgExpr::Path(p) => Some(p.clone()),
        _ => None,
    }
}

/// Whether a method writes an entry.
pub open spec fn is_write(m: Seq<char>) -> bool {
    m == "set"@ || m == "update"@ || m == "try_update"@
}

fn is_write_method(m: &str) -> (r: bool)
    ensures
        r == is_write(m@),
{
    str_eq(m, "set") || str_eq(m, "update") || str_eq(m, "try_update")
}

/// The type of the first typed closure parameter.
pub open spec fn first_typed(ps: Seq<Option<String>>) -> Option<Seq<char>>
    decreases ps.len(),
{
    if ps.len() == 0 {
        None
    } else if ps[0] is Some {
        Some(ps[0]->0@)
    } else {
        first_typed(ps.drop_first())
    }
}

fn first_typed_exec(ps: &Vec<Option<String>>) -> (r: Option<String>)
    ensures
        match r {
            Some(t) => first_typed(ps@) == Some(t@),
            None => first_typed(ps@) is None,
        },
{
    let mut i: usize = 0;
    assert(ps@.skip(0) =~= ps@);
    while i < ps.len()
        invariant
            i <= ps.len(),
            first_typed(ps@) == first_typed(ps@.skip(i as int)),
        decreases ps.len() - i,
    {
        assert(ps@.skip(i as int).drop_first() =~= ps@.skip(i + 1));
        assert(ps@.skip(i as int)[0] == ps@[i as int]);
        if let Some(t) = &ps[i] {
            return Some(t.clone());
        }
        i = i + 1;
    }
    assert(ps@.skip(i as int).len() == 0);
    None
}

/// The type an expression denotes: a parameter's declared type, a field's
/// name, or a method name that itself looks critical.
pub open spec fn spec_resolve_value_expr(e: ArgExpr, bindings: Seq<(String, String)>) -> Option<Seq<char>> {
    match e {
        ArgExpr::Path(name) => binding_lookup(bindings, name@),
        ArgExpr::Field(member) => Some(member@),
        ArgExpr::MethodCall(method) => if spec_type_looks_critical(method@) {
            Some(method@)
        } else {
            None
        },
        _ => None,
    }
}

fn resolve_value_expr(e: &ArgExpr, bindings: &Vec<(String, String)>) -> (r: Option<String>)
    ensures
        match r {
            Some(t) => spec_resolve_value_expr(*e, bindings@) == Some(t@),
            None => spec_resolve_value_expr(*e, bindings@) is None,
        },
{
    match e {
        ArgExpr::Path(name) => lookup_binding(bindings, name.as_str()),
        ArgExpr::Field(member) => Some(member.clone()),
        ArgExpr::MethodCall(method) => {
            if type_looks_critical(method.as_str()) {
                Some(method.clone())
            } else {
                None
            }
        },
        _ => None,
    }
}

/// The type of the value a write stores, when syntax tells it: through a
/// `&`, from a typed closure parameter, or from the expression itself.
pub open spec fn spec_resolve_value_type(c: StorageChain, bindings: Seq<(String, String)>) -> Option<Seq<char>> {
    if !is_write(c.method@) || c.args@.len() < 2 {
        None
    } else {
        match c.args@[1] {
            ArgExpr::Reference(inner) => spec_resolve_value_expr(*inner, bindings),
            ArgExpr::Closure(ps) => first_typed(ps@),
            other => spec_resolve_value_expr(other, bindings),
        }
    }
}

fn resolve_value_type(chain: &StorageChain, bindings: &Vec<(String, String)>) -> (r: Option<String>)
    ensures
        match r {
            Some(t) => spec_resolve_value_type(*chain, bindings@) == Some(t@),
            None => spec_resolve_value_type(*chain, bindings@) is None,
        },
{
    if !is_write_method(chain.method.as_str()) || chain.args.len() < 2 {
        return None;
    }
    match &chain.args[1] {
        ArgExpr::Reference(inner) => resolve_value_expr(inner, bindings),
        ArgExpr::Closure(ps) => first_typed_exec(ps),
        other => resolve_value_expr(other, bindings),
    }
}

} // verus!

verus! {

// ---------------------------------------------------------------------------
// Rules
// ---------------------------------------------------------------------------

/// The lint rules, in the order they run.
#[derive(Clone, Copy, Debug, PartialEq, Eq, Structural)]
pub enum LintRule {
    /// Critical data written to temporary storage (error).
    TemporaryCriticalType,
    /// A `storage!` key accessed through the wrong lifecycle (error).
    LifecycleMismatch,
    /// A write path with no TTL extension (warning).
    MissingTtlExtension,
    /// Unbounded or loop-written values in instance storage (warning).
    InstanceStorageBloat,
    /// A temporary extension beyond the network maximum (warning).
    TemporaryTtlExceeded,
    /// A persistent or instance extension beyond the network maximum
    /// (warning).
    PersistentTtlExceeded,
}

/// The name of a rule.
pub open spec fn rule_name(r: LintRule) -> Seq<char> {
    match r {
        LintRule::TemporaryCriticalType => "temporary_critical_type"@,
        LintRule::LifecycleMismatch => "lifecycle_mismatch"@,
        LintRule::MissingTtlExtension => "missing_ttl_extension"@,
        LintRule::InstanceStorageBloat => "instance_storage_bloat"@,
        LintRule::TemporaryTtlExceeded => "temporary_ttl_exceeded"@,
        LintRule::PersistentTtlExceeded => "persistent_ttl_exceeded"@,
    }
}

/// The severity of a rule.
pub open spec fn rule_severity(r: LintRule) -> Severity {
    match r {
        LintRule::TemporaryCriticalType | LintRule::LifecycleMismatch => Severity::Error,
        _ => Severity::Warning,
    }
}

impl LintRule {
    /// The rule's name, as used by `--ignore` and in findings.
    pub fn name(&self) -> (r: &'static str)
        ensures
            r@ == rule_name(*self),
    {
        match self {
            LintRule::TemporaryCriticalType => "temporary_critical_type",
            LintRule::LifecycleMismatch => "lifecycle_mismatch",
            LintRule::MissingTtlExtension => "missing_ttl_extension",
            LintRule::InstanceStorageBloat => "instance_storage_bloat",
            LintRule::TemporaryTtlExceeded => "temporary_ttl_exceeded",
            LintRule::PersistentTtlExceeded => "persistent_ttl_exceeded",
        }
    }

    /// The rule's severity.
    pub fn severity(&self) -> (r: Severity)
        ensures
            r == rule_severity(*self),
    {
        match self {
            LintRule::TemporaryCriticalType | LintRule::LifecycleMismatch => Severity::Error,
            _ => Severity::Warning,
        }
    }
}

/// Whether `ty` is one of the file's `Critical` types.
pub open spec fn is_critical_type(model: FileModel, ty: Seq<char>) -> bool {
    exists|i: int| 0 <= i < model.critical_types@.len() && #[trigger] model.critical_types@[i]@ == ty
}

/// Why a temporary write holds critical data: its key is a `critical`
/// `storage!` entry, and/or its value type derives `Critical` or looks
/// critical by name.
pub open spec fn tct_reasons(model: FileModel, f: FnStorage, c: StorageChain) -> Seq<Seq<char>> {
    let key_reason: Seq<Seq<char>> = match spec_key_variant(c) {
        Some(v) => match first_decl(model.decls@, v) {
            Some(d) => if d.critical {
                seq!["key `"@ + v + "` is declared `critical` in the storage schema"@]
            } else {
                seq![]
            },
            None => seq![],
        },
        None => seq![],
    };
    let type_reason: Seq<Seq<char>> = match spec_resolve_value_type(c, f.bindings@) {
        Some(ty) => if is_critical_type(model, ty) {
            seq!["value type `"@ + ty + "` derives `Critical`"@]
        } else if spec_type_looks_critical(ty) {
            seq!["value type `"@ + ty + "` matches the critical-data naming heuristic"@]
        } else {
            seq![]
        },
        None => seq![],
    };
    key_reason + type_reason
}

/// Why an instance write may bloat the instance entry: it sits in a loop,
/// and/or its value type is a collection or a struct of more than three
/// fields.
pub open spec fn isb_reasons(model: FileModel, f: FnStorage, c: StorageChain) -> Seq<Seq<char>> {
    let loop_reason: Seq<Seq<char>> = if c.inside_loop {
        seq!["written inside a loop (instance entry grows on every iteration)"@]
    } else {
        seq![]
    };
    let type_reason: Seq<Seq<char>> = match spec_resolve_value_type(c, f.bindings@) {
        Some(ty) => if spec_type_looks_collection(ty) {
            seq![
                "value type `"@ + ty
                    + "` is an unbounded collection \u{2014} consider persistent storage or a bounded encoding"@,
            ]
        } else {
            match field_count_lookup(model.struct_field_counts@, ty) {
                Some(n) => if n > MAX_INSTANCE_STRUCT_FIELDS {
                    seq![
                        "value type `"@ + ty + "` has "@ + decimal(n as nat)
                            + " fields \u{2014} instance storage is a single ledger entry paid on every call"@,
                    ]
                } else {
                    seq![]
                },
                None => seq![],
            }
        },
        None => seq![],
    };
    loop_reason + type_reason
}

/// The argument position of the TTL target in an `extend_ttl` call:
/// `extend_ttl(key, threshold, extend_to)`, or `extend_ttl(threshold,
/// extend_to)` on instance storage.
pub open spec fn extend_target_index(c: StorageChain) -> int {
    if c.lifecycle is Instance && c.args@.len() == 2 {
        1
    } else {
        2
    }
}

/// The literal TTL target of an `extend_ttl` chain, when it is a `u32`
/// literal.
pub open spec fn extend_target(c: StorageChain) -> Option<u32> {
    let k = extend_target_index(c);
    if c.method@ == "extend_ttl"@ && k < c.args@.len() {
        match c.args@[k] {
            ArgExpr::IntLit(digits) => parse_u32_spec(digits@),
            _ => None,
        }
    } else {
        None
    }
}

/// A finding of `rule` at chain `c`.
pub open spec fn finding_at(rule: LintRule, c: StorageChain, message: Seq<char>) -> RuleFindingView {
    RuleFindingView {
        rule: rule_name(rule),
        severity: rule_severity(rule),
        line: c.line,
        column: c.column,
        message,
    }
}

/// What `rule` reports for chain `c` of function `f`, if anything.
pub open spec fn chain_finding(rule: LintRule, model: FileModel, f: FnStorage, c: StorageChain) -> Option<RuleFindingView> {
    match rule {
        LintRule::TemporaryCriticalType => {
            if !(c.lifecycle is Temporary) || !is_write(c.method@) || tct_reasons(model, f, c).len()
                == 0 {
                None
            } else {
                Some(
                    finding_at(
                        rule,
                        c,
                        "temporary storage write with critical data ("@ + joined(
                            tct_reasons(model, f, c),
                            "; "@,
                        )
                            + "): temporary entries are permanently deleted when their TTL expires and can never be restored. Use persistent storage (or the `storage!` macro, which rejects this at compile time)."@,
                    ),
                )
            }
        },
        LintRule::LifecycleMismatch => match spec_key_variant(c) {
            Some(v) => match first_decl(model.decls@, v) {
                Some(d) => if d.lifecycle != c.lifecycle {
                    Some(
                        finding_at(
                            rule,
                            c,
                            "entry `"@ + v + "` is declared `"@ + lifecycle_word(d.lifecycle)
                                + "` in the storage schema but accessed through `."@
                                + lifecycle_word(c.lifecycle)
                                + "()` \u{2014} lifecycles are separate key spaces, so this reads or writes the wrong entry"@,
                        ),
                    )
                } else {
                    None
                },
                None => None,
            },
            None => None,
        },
        LintRule::MissingTtlExtension => {
            if f.has_ttl_call || c.lifecycle is Instance || !is_write(c.method@) {
                None
            } else {
                Some(
                    finding_at(
                        rule,
                        c,
                        "`"@ + c.method@ + "()` write to "@ + lifecycle_word(c.lifecycle)
                            + " storage with no TTL extension in this function: the entry TTL is never bumped here, so it drifts toward expiry. Call `extend_ttl`/`bump` in this function or use soroban-storage accessors, which auto-bump on access"@,
                    ),
                )
            }
        },
        LintRule::InstanceStorageBloat => {
            if !(c.lifecycle is Instance) || !is_write(c.method@) || isb_reasons(model, f, c).len()
                == 0 {
                None
            } else {
                Some(
                    finding_at(
                        rule,
                        c,
                        "instance storage write may bloat the contract instance ("@ + joined(
                            isb_reasons(model, f, c),
                            "; "@,
                        ) + ")"@,
                    ),
                )
            }
        },
        LintRule::TemporaryTtlExceeded => {
            if !(c.lifecycle is Temporary) {
                None
            } else {
                match extend_target(c) {
                    Some(t) => if t > MAX_TEMP_TTL {
                        Some(
                            finding_at(
                                rule,
                                c,
                                "extending a "@ + "temporary"@ + " entry to "@ + decimal(t as nat)
                                    + " ledgers exceeds the network maximum ("@ + decimal(
                                    MAX_TEMP_TTL as nat,
                                )
                                    + "); the host clamps silently, so the effective lifetime is shorter than requested"@,
                            ),
                        )
                    } else {
                        None
                    },
                    None => None,
                }
            }
        },
        LintRule::PersistentTtlExceeded => {
            if c.lifecycle is Temporary {
                None
            } else {
                match extend_target(c) {
                    Some(t) => if t > MAX_PERSISTENT_TTL {
                        Some(
                            finding_at(
                                rule,
                                c,
                                "extending a "@ + lifecycle_word(c.lifecycle) + " entry to "@
                                    + decimal(t as nat)
                                    + " ledgers exceeds the network maximum ("@ + decimal(
                                    MAX_PERSISTENT_TTL as nat,
                                )
                                    + "); the host clamps silently, so the effective lifetime is shorter than requested"@,
                            ),
                        )
                    } else {
                        None
                    },
                    None => None,
                }
            }
        },
    }
}

/// A finding as a sequence of at most one.
pub open spec fn opt_seq(o: Option<RuleFindingView>) -> Seq<RuleFindingView> {
    match o {
        Some(x) => seq![x],
        None => seq![],
    }
}

/// What `rule` reports for the chains `cs` of function `f`, in order.
pub open spec fn chains_findings(rule: LintRule, model: FileModel, f: FnStorage, cs: Seq<StorageChain>) -> Seq<RuleFindingView>
    decreases cs.len(),
{
    if cs.len() == 0 {
        seq![]
    } else {
        chains_findings(rule, model, f, cs.drop_last()) + opt_seq(
            chain_finding(rule, model, f, cs.last()),
        )
    }
}

/// What `rule` reports for the functions `fs`, in order.
pub open spec fn fns_findings(rule: LintRule, model: FileModel, fs: Seq<FnStorage>) -> Seq<RuleFindingView>
    decreases fs.len(),
{
    if fs.len() == 0 {
        seq![]
    } else {
        fns_findings(rule, model, fs.drop_last()) + chains_findings(
            rule,
            model,
            fs.last(),
            fs.last().chains@,
        )
    }
}

/// What `rule` reports for a file: its findings for every chain of every
/// function, in source order.
pub open spec fn rule_findings(rule: LintRule, model: FileModel) -> Seq<RuleFindingView> {
    fns_findings(rule, model, model.fns@)
}

} // verus!

verus! {

fn push_string(v: &mut Vec<String>, s: String)
    ensures
        final(v)@.map_values(|x: String| x@) == old(v)@.map_values(|x: String| x@).push(s@),
{
    let ghost before = v@.map_values(|x: String| x@);
    v.push(s);
    assert(v@.map_values(|x: String| x@) =~= before.push(s@));
}

fn tct_reasons_exec(model: &FileModel, f: &FnStorage, c: &StorageChain) -> (r: Vec<String>)
    ensures
        r@.map_values(|x: String| x@) == tct_reasons(*model, *f, *c),
{
    let mut reasons: Vec<String> = Vec::new();
    if let Some(variant) = key_variant(c) {
        if let Some(decl) = find_decl(&model.decls, variant.as_str()) {
            if decl.critical {
                let mut m = String::from_str("key `");
                m.append(variant.as_str());
                m.append("` is declared `critical` in the storage schema");
                push_string(&mut reasons, m);
            }
        }
    }
    let ghost key_part = reasons@.map_values(|x: String| x@);
    if let Some(ty) = resolve_value_type(c, &f.bindings) {
        if contains_str(&model.critical_types, ty.as_str()) {
            let mut m = String::from_str("value type `");
            m.append(ty.as_str());
            m.append("` derives `Critical`");
            push_string(&mut reasons, m);
        } else if type_looks_critical(ty.as_str()) {
            let mut m = String::from_str("value type `");
            m.append(ty.as_str());
            m.append("` matches the critical-data naming heuristic");
            push_string(&mut reasons, m);
        }
    }
    assert(reasons@.map_values(|x: String| x@) =~= tct_reasons(*model, *f, *c));
    reasons
}

fn isb_reasons_exec(model: &FileModel, f: &FnStorage, c: &StorageChain) -> (r: Vec<String>)
    ensures
        r@.map_values(|x: String| x@) == isb_reasons(*model, *f, *c),
{
    let mut reasons: Vec<String> = Vec::new();
    if c.inside_loop {
        push_string(
            &mut reasons,
            String::from_str("written inside a loop (instance entry grows on every iteration)"),
        );
    }
    if let Some(ty) = resolve_value_type(c, &f.bindings) {
        if type_looks_collection(ty.as_str()) {
            let mut m = String::from_str("value type `");
            m.append(ty.as_str());
            m.append(
                "` is an unbounded collection \u{2014} consider persistent storage or a bounded encoding",
            );
            push_string(&mut reasons, m);
        } else if let Some(fields) = lookup_field_count(&model.struct_field_counts, ty.as_str()) {
            if fields > MAX_INSTANCE_STRUCT_FIELDS {
                let mut m = String::from_str("value type `");
                m.append(ty.as_str());
                m.append("` has ");
                let n = u64_to_string(fields as u64);
                m.append(n.as_str());
                m.append(
                    " fields \u{2014} instance storage is a single ledger entry paid on every call",
                );
                push_string(&mut reasons, m);
            }
        }
    }
    assert(reasons@.map_values(|x: String| x@) =~= isb_reasons(*model, *f, *c));
    reasons
}

fn extend_target_exec(c: &StorageChain) -> (r: Option<u32>)
    ensures
        r == extend_target(*c),
{
    let k: usize = if matches!(c.lifecycle, Lifecycle::Instance) && c.args.len() == 2 {
        1
    } else {
        2
    };
    if str_eq(c.method.as_str(), "extend_ttl") && k < c.args.len() {
        match &c.args[k] {
            ArgExpr::IntLit(digits) => parse_u32(digits.as_str()),
            _ => None,
        }
    } else {
        None
    }
}

fn finding(rule: LintRule, c: &StorageChain, message: String) -> (r: RuleFinding)
    ensures
        r@ == finding_at(rule, *c, message@),
{
    RuleFinding {
        rule: rule.name(),
        severity: rule.severity(),
        line: c.line,
        column: c.column,
        message,
    }
}

fn ttl_exceeded_message(lifecycle: &str, target: u32, max: u32) -> (r: String)
    ensures
        r@ == "extending a "@ + lifecycle@ + " entry to "@ + decimal(target as nat)
            + " ledgers exceeds the network maximum ("@ + decimal(max as nat)
            + "); the host clamps silently, so the effective lifetime is shorter than requested"@,
{
    let mut m = String::from_str("extending a ");
    m.append(lifecycle);
    m.append(" entry to ");
    let t = u64_to_string(target as u64);
    m.append(t.as_str());
    m.append(" ledgers exceeds the network maximum (");
    let x = u64_to_string(max as u64);
    m.append(x.as_str());
    m.append("); the host clamps silently, so the effective lifetime is shorter than requested");
    m
}

fn chain_finding_exec(rule: LintRule, model: &FileModel, f: &FnStorage, c: &StorageChain) -> (r: Option<RuleFinding>)
    ensures
        match r {
            Some(x) => chain_finding(rule, *model, *f, *c) == Some(x@),
            None => chain_finding(rule, *model, *f, *c) is None,
        },
{
    match rule {
        LintRule::TemporaryCriticalType => {
            if !matches!(c.lifecycle, Lifecycle::Temporary) || !is_write_method(c.method.as_str()) {
                return None;
            }
            let reasons = tct_reasons_exec(model, f, c);
            if reasons.len() == 0 {
                return None;
            }
            let mut m = String::from_str("temporary storage write with critical data (");
            let j = join(&reasons, "; ");
            m.append(j.as_str());
            m.append(
                "): temporary entries are permanently deleted when their TTL expires and can never be restored. Use persistent storage (or the `storage!` macro, which rejects this at compile time).",
            );
            Some(finding(rule, c, m))
        },
        LintRule::LifecycleMismatch => {
            let variant = match key_variant(c) {
                Some(v) => v,
                None => {
                    return None;
                },
            };
            let decl = match find_decl(&model.decls, variant.as_str()) {
                Some(d) => d,
                None => {
                    return None;
                },
            };
            if decl.lifecycle == c.lifecycle {
                return None;
            }
            let mut m = String::from_str("entry `");
            m.append(variant.as_str());
            m.append("` is declared `");
            m.append(decl.lifecycle.as_str());
            m.append("` in the storage schema but accessed through `.");
            m.append(c.lifecycle.as_str());
            m.append(
                "()` \u{2014} lifecycles are separate key spaces, so this reads or writes the wrong entry",
            );
            Some(finding(rule, c, m))
        },
        LintRule::MissingTtlExtension => {
            if f.has_ttl_call || matches!(c.lifecycle, Lifecycle::Instance) || !is_write_method(
                c.method.as_str(),
            ) {
                return None;
            }
            let mut m = String::from_str("`");
            m.append(c.method.as_str());
            m.append("()` write to ");
            m.append(c.lifecycle.as_str());
            m.append(
                " storage with no TTL extension in this function: the entry TTL is never bumped here, so it drifts toward expiry. Call `extend_ttl`/`bump` in this function or use soroban-storage accessors, which auto-bump on access",
            );
            Some(finding(rule, c, m))
        },
        LintRule::InstanceStorageBloat => {
            if !matches!(c.lifecycle, Lifecycle::Instance) || !is_write_method(c.method.as_str()) {
                return None;
            }
            let reasons = isb_reasons_exec(model, f, c);
            if reasons.len() == 0 {
                return None;
            }
            let mut m = String::from_str("instance storage write may bloat the contract instance (");
            let j = join(&reasons, "; ");
            m.append(j.as_str());
            m.append(")");
            Some(finding(rule, c, m))
        },
        LintRule::TemporaryTtlExceeded => {
            if !matches!(c.lifecycle, Lifecycle::Temporary) {
                return None;
            }
            match extend_target_exec(c) {
                Some(t) => {
                    if t > MAX_TEMP_TTL {
                        Some(finding(rule, c, ttl_exceeded_message("temporary", t, MAX_TEMP_TTL)))
                    } else {
                        None
                    }
                },
                None => None,
            }
        },
        LintRule::PersistentTtlExceeded => {
            if matches!(c.lifecycle, Lifecycle::Temporary) {
                return None;
            }
            match extend_target_exec(c) {
                Some(t) => {
                    if t > MAX_PERSISTENT_TTL {
                        Some(
                            finding(
                                rule,
                                c,
                                ttl_exceeded_message(c.lifecycle.as_str(), t, MAX_PERSISTENT_TTL),
                            ),
                        )
                    } else {
                        None
                    }
                },
                None => None,
            }
        },
    }
}

fn run_rule(rule: LintRule, model: &FileModel, out: &mut Vec<RuleFinding>)
    ensures
        findings_view(final(out)@) == findings_view(old(out)@) + rule_findings(rule, *model),
{
    let ghost start = findings_view(out@);
    let mut i: usize = 0;
    while i < model.fns.len()
        invariant
            i <= model.fns.len(),
            findings_view(out@) == start + fns_findings(rule, *model, model.fns@.take(i as int)),
        decreases model.fns.len() - i,
    {
        let f = &model.fns[i];
        assert(model.fns@.take(i + 1).drop_last() =~= model.fns@.take(i as int));
        assert(model.fns@.take(i + 1).last() == *f);
        let ghost mid = findings_view(out@);
        let mut j: usize = 0;
        while j < f.chains.len()
            invariant
                j <= f.chains.len(),
                findings_view(out@) == mid + chains_findings(rule, *model, *f, f.chains@.take(j as int)),
            decreases f.chains.len() - j,
        {
            assert(f.chains@.take(j + 1).drop_last() =~= f.chains@.take(j as int));
            assert(f.chains@.take(j + 1).last() == f.chains@[j as int]);
            let ghost before = findings_view(out@);
            match chain_finding_exec(rule, model, f, &f.chains[j]) {
                Some(x) => {
                    out.push(x);
                    assert(findings_view(out@) =~= before + seq![x@]);
                },
                None => {
                    assert(before + Seq::<RuleFindingView>::empty() =~= before);
                },
            }
            j = j + 1;
            assert(findings_view(out@) =~= mid + chains_findings(
                rule,
                *model,
                *f,
                f.chains@.take(j as int),
            ));
        }
        assert(f.chains@.take(f.chains.len() as int) =~= f.chains@);
        i = i + 1;
        assert(findings_view(out@) =~= start + fns_findings(rule, *model, model.fns@.take(i as int)));
    }
    assert(model.fns@.take(model.fns.len() as int) =~= model.fns@);
}

/// R1 `temporary_critical_type` (error): critical data written to temporary
/// storage, which is permanently deleted when its TTL expires.
pub fn temporary_critical_type(model: &FileModel, out: &mut Vec<RuleFinding>)
    ensures
        findings_view(final(out)@) == findings_view(old(out)@) + rule_findings(
            LintRule::TemporaryCriticalType,
            *model,
        ),
{
    run_rule(LintRule::TemporaryCriticalType, model, out)
}

/// R1b `lifecycle_mismatch` (error): a `storage!` key accessed through a
/// lifecycle other than the declared one.
pub fn lifecycle_mismatch(model: &FileModel, out: &mut Vec<RuleFinding>)
    ensures
        findings_view(final(out)@) == findings_view(old(out)@) + rule_findings(
            LintRule::LifecycleMismatch,
            *model,
        ),
{
    run_rule(LintRule::LifecycleMismatch, model, out)
}

/// R2 `missing_ttl_extension` (warning): persistent or temporary writes in a
/// function with no TTL management call.
pub fn missing_ttl_extension(model: &FileModel, out: &mut Vec<RuleFinding>)
    ensures
        findings_view(final(out)@) == findings_view(old(out)@) + rule_findings(
            LintRule::MissingTtlExtension,
            *model,
        ),
{
    run_rule(LintRule::MissingTtlExtension, model, out)
}

/// R3 `instance_storage_bloat` (warning): instance writes of collections,
/// large structs, or inside loops.
pub fn instance_storage_bloat(model: &FileModel, out: &mut Vec<RuleFinding>)
    ensures
        findings_view(final(out)@) == findings_view(old(out)@) + rule_findings(
            LintRule::InstanceStorageBloat,
            *model,
        ),
{
    run_rule(LintRule::InstanceStorageBloat, model, out)
}

/// R4 `temporary_ttl_exceeded` (warning): temporary extensions beyond the
/// network maximum, which the host clamps silently.
pub fn temporary_ttl_exceeded(model: &FileModel, out: &mut Vec<RuleFinding>)
    ensures
        findings_view(final(out)@) == findings_view(old(out)@) + rule_findings(
            LintRule::TemporaryTtlExceeded,
            *model,
        ),
{
    run_rule(LintRule::TemporaryTtlExceeded, model, out)
}

/// R5 `persistent_ttl_exceeded` (warning): persistent or instance
/// extensions beyond the network maximum, which the host clamps silently.
pub fn persistent_ttl_exceeded(model: &FileModel, out: &mut Vec<RuleFinding>)
    ensures
        findings_view(final(out)@) == findings_view(old(out)@) + rule_findings(
            LintRule::PersistentTtlExceeded,
            *model,
        ),
{
    run_rule(LintRule::PersistentTtlExceeded, model, out)
}

/// Every rule, in the order `run_all` applies them.
pub open spec fn all_rules() -> Seq<LintRule> {
    seq![
        LintRule::TemporaryCriticalType,
        LintRule::LifecycleMismatch,
        LintRule::MissingTtlExtension,
        LintRule::InstanceStorageBloat,
        LintRule::TemporaryTtlExceeded,
        LintRule::PersistentTtlExceeded,
    ]
}

/// The findings of the rules `rules` that are not ignored, rule by rule.
pub open spec fn rules_findings(rules: Seq<LintRule>, model: FileModel, ignored: Seq<Seq<char>>) -> Seq<RuleFindingView>
    decreases rules.len(),
{
    if rules.len() == 0 {
        seq![]
    } else {
        rules_findings(rules.drop_last(), model, ignored) + if ignored.contains(
            rule_name(rules.last()),
        ) {
            Seq::<RuleFindingView>::empty()
        } else {
            rule_findings(rules.last(), model)
        }
    }
}

/// Runs every rule not named in `ignored` over the model, appending the
/// findings rule by rule in a stable order.
pub fn run_all(model: &FileModel, ignored: &Vec<String>, out: &mut Vec<RuleFinding>)
    ensures
        findings_view(final(out)@) == findings_view(old(out)@) + rules_findings(
            all_rules(),
            *model,
            ignored@.map_values(|s: String| s@),
        ),
{
    let rules: Vec<LintRule> = vec![
        LintRule::TemporaryCriticalType,
        LintRule::LifecycleMismatch,
        LintRule::MissingTtlExtension,
        LintRule::InstanceStorageBloat,
        LintRule::TemporaryTtlExceeded,
        LintRule::PersistentTtlExceeded,
    ];
    assert(rules@ =~= all_rules());
    let ghost ig = ignored@.map_values(|s: String| s@);
    let ghost start = findings_view(out@);
    let mut i: usize = 0;
    while i < rules.len()
        invariant
            i <= rules.len(),
            rules@ == all_rules(),
            ig == ignored@.map_values(|s: String| s@),
            findings_view(out@) == start + rules_findings(rules@.take(i as int), *model, ig),
        decreases rules.len() - i,
    {
        let rule = rules[i];
        assert(rules@.take(i + 1).drop_last() =~= rules@.take(i as int));
        assert(rules@.take(i + 1).last() == rule);
        let name = rule.name();
        let skip = contains_str(ignored, name);
        proof {
            if skip {
                let k = choose|k: int| 0 <= k < ignored.len() && #[trigger] ignored@[k]@ == name@;
                assert(ig[k] == rule_name(rule));
            }
            if ig.contains(rule_name(rule)) {
                let k = choose|k: int| 0 <= k < ig.len() && ig[k] == rule_name(rule);
                assert(ignored@[k]@ == name@);
            }
        }
        let ghost before = findings_view(out@);
        if !skip {
            let mut found: Vec<RuleFinding> = Vec::new();
            run_rule(rule, model, &mut found);
            assert(findings_view(found@) =~= rule_findings(rule, *model));
            let ghost fv = findings_view(found@);
            out.append(&mut found);
            assert(findings_view(out@) =~= before + fv);
        } else {
            assert(before + Seq::<RuleFindingView>::empty() =~= before);
        }
        i = i + 1;
        assert(findings_view(out@) =~= start + rules_findings(rules@.take(i as int), *model, ig));
    }
    assert(rules@.take(rules.len() as int) =~= rules@);
}

} // verus!

verus! {

proof fn lemma_chains_findings_of_rule(rule: LintRule, model: FileModel, f: FnStorage, cs: Seq<StorageChain>)
    ensures
        forall|i: int|
            0 <= i < chains_findings(rule, model, f, cs).len() ==> (#[trigger] chains_findings(
                rule,
                model,
                f,
                cs,
            )[i]).rule == rule_name(rule) && chains_findings(rule, model, f, cs)[i].severity
                == rule_severity(rule),
    decreases cs.len(),
{
    if cs.len() > 0 {
        lemma_chains_findings_of_rule(rule, model, f, cs.drop_last());
    }
}

proof fn lemma_fns_findings_of_rule(rule: LintRule, model: FileModel, fs: Seq<FnStorage>)
    ensures
        forall|i: int|
            0 <= i < fns_findings(rule, model, fs).len() ==> (#[trigger] fns_findings(
                rule,
                model,
                fs,
            )[i]).rule == rule_name(rule) && fns_findings(rule, model, fs)[i].severity
                == rule_severity(rule),
    decreases fs.len(),
{
    if fs.len() > 0 {
        lemma_fns_findings_of_rule(rule, model, fs.drop_last());
        lemma_chains_findings_of_rule(rule, model, fs.last(), fs.last().chains@);
        let a = fns_findings(rule, model, fs.drop_last());
        let b = chains_findings(rule, model, fs.last(), fs.last().chains@);
        assert forall|i: int| 0 <= i < (a + b).len() implies (#[trigger] (a + b)[i]).rule
            == rule_name(rule) && (a + b)[i].severity == rule_severity(rule) by {
            if i >= a.len() {
                assert((a + b)[i] == b[i - a.len()]);
            }
        }
    }
}

proof fn lemma_rules_findings_come_from_kept_rules(rules: Seq<LintRule>, model: FileModel, ignored: Seq<Seq<char>>)
    ensures
        forall|i: int|
            0 <= i < rules_findings(rules, model, ignored).len() ==> exists|k: int|
                0 <= k < rules.len() && !ignored.contains(rule_name(rules[k]))
                    && (#[trigger] rules_findings(rules, model, ignored)[i]).rule == rule_name(
                    rules[k],
                ) && rules_findings(rules, model, ignored)[i].severity == rule_severity(
                    rules[k],
                ),
    decreases rules.len(),
{
    if rules.len() > 0 {
        let prev = rules.drop_last();
        lemma_rules_findings_come_from_kept_rules(prev, model, ignored);
        let a = rules_findings(prev, model, ignored);
        let b = if ignored.contains(rule_name(rules.last())) {
            Seq::<RuleFindingView>::empty()
        } else {
            rule_findings(rules.last(), model)
        };
        lemma_fns_findings_of_rule(rules.last(), model, model.fns@);
        assert forall|i: int| 0 <= i < (a + b).len() implies exists|k: int|
            0 <= k < rules.len() && !ignored.contains(rule_name(rules[k]))
                && (#[trigger] (a + b)[i]).rule == rule_name(rules[k]) && (a + b)[i].severity
                == rule_severity(rules[k]) by {
            if i < a.len() {
                let k = choose|k: int|
                    0 <= k < prev.len() && !ignored.contains(rule_name(prev[k]))
                        && (#[trigger] a[i]).rule == rule_name(prev[k]) && a[i].severity
                        == rule_severity(prev[k]);
                assert(rules[k] == prev[k]);
            } else {
                assert((a + b)[i] == b[i - a.len()]);
                assert(rules[rules.len() - 1] == rules.last());
            }
        }
    }
}

/// A rule named in `ignored` reports nothing, and every finding carries the
/// severity of its rule: errors for `temporary_critical_type` and
/// `lifecycle_mismatch`, warnings for the others.
pub proof fn lemma_ignored_rules_report_nothing(model: FileModel, ignored: Seq<Seq<char>>)
    ensures
        forall|i: int|
            0 <= i < rules_findings(all_rules(), model, ignored).len() ==> !ignored.contains(
                (#[trigger] rules_findings(all_rules(), model, ignored)[i]).rule,
            ),
        forall|i: int|
            0 <= i < rules_findings(all_rules(), model, ignored).len() ==> ((#[trigger] rules_findings(
                all_rules(),
                model,
                ignored,
            )[i]).severity == Severity::Error <==> (rules_findings(all_rules(), model, ignored)[i].rule
                == "temporary_critical_type"@ || rules_findings(all_rules(), model, ignored)[i].rule
                == "lifecycle_mismatch"@)),
{
    lemma_rules_findings_come_from_kept_rules(all_rules(), model, ignored);
    reveal_strlit("temporary_critical_type");
    reveal_strlit("lifecycle_mismatch");
    reveal_strlit("missing_ttl_extension");
    reveal_strlit("instance_storage_bloat");
    reveal_strlit("temporary_ttl_exceeded");
    reveal_strlit("persistent_ttl_exceeded");
    let fs = rules_findings(all_rules(), model, ignored);
    assert forall|i: int| 0 <= i < fs.len() implies !ignored.contains((#[trigger] fs[i]).rule)
        && (fs[i].severity == Severity::Error <==> (fs[i].rule == "temporary_critical_type"@
        || fs[i].rule == "lifecycle_mismatch"@)) by {
        let k = choose|k: int|
            0 <= k < all_rules().len() && !ignored.contains(rule_name(all_rules()[k]))
                && (#[trigger] fs[i]).rule == rule_name(all_rules()[k]) && fs[i].severity
                == rule_severity(all_rules()[k]);
        let r = all_rules()[k];
        assert(rule_name(r).len() > 0);
        if r is MissingTtlExtension || r is InstanceStorageBloat || r is TemporaryTtlExceeded
            || r is PersistentTtlExceeded {
            assert(rule_name(r) != "temporary_critical_type"@ && rule_name(r)
                != "lifecycle_mismatch"@) by {
                if r is MissingTtlExtension {
                    assert(rule_name(r)[0] != "temporary_critical_type"@[0]);
                    assert(rule_name(r)[0] != "lifecycle_mismatch"@[0]);
                }
                if r is InstanceStorageBloat {
                    assert(rule_name(r)[0] != "temporary_critical_type"@[0]);
                    assert(rule_name(r)[0] != "lifecycle_mismatch"@[0]);
                }
                if r is TemporaryTtlExceeded {
                    assert(rule_name(r).len() != "temporary_critical_type"@.len()
                        || rule_name(r)[10] != "temporary_critical_type"@[10]);
                    assert(rule_name(r)[0] != "lifecycle_mismatch"@[0]);
                }
                if r is PersistentTtlExceeded {
                    assert(rule_name(r)[0] != "temporary_critical_type"@[0]);
                    assert(rule_name(r)[0] != "lifecycle_mismatch"@[0]);
                }
            }
        }
        if r is TemporaryCriticalType {
            assert(rule_name(r)[0] != "lifecycle_mismatch"@[0]);
        }
    }
}

/// A function that manages TTLs anywhere in its body never gets a
/// `missing_ttl_extension` finding.
pub proof fn lemma_ttl_call_silences_missing_ttl(model: FileModel, f: FnStorage, cs: Seq<StorageChain>)
    requires
        f.has_ttl_call,
    ensures
        chains_findings(LintRule::MissingTtlExtension, model, f, cs).len() == 0,
    decreases cs.len(),
{
    if cs.len() > 0 {
        lemma_ttl_call_silences_missing_ttl(model, f, cs.drop_last());
    }
}

/// Only temporary writes can be `temporary_critical_type` findings, and
/// only instance writes `instance_storage_bloat` findings.
pub proof fn lemma_rules_fire_on_their_lifecycle(model: FileModel, f: FnStorage, c: StorageChain)
    ensures
        chain_finding(LintRule::TemporaryCriticalType, model, f, c) is Some ==> c.lifecycle
            is Temporary && is_write(c.method@),
        chain_finding(LintRule::InstanceStorageBloat, model, f, c) is Some ==> c.lifecycle
            is Instance && is_write(c.method@),
        chain_finding(LintRule::MissingTtlExtension, model, f, c) is Some ==> !(c.lifecycle
            is Instance) && is_write(c.method@),
{
}


/// A temporary write is always an error when its key is declared
/// `critical` in the storage schema, or its value type derives `Critical` or
/// is named like critical data.
pub proof fn lemma_critical_temporary_writes_are_flagged(model: FileModel, f: FnStorage, c: StorageChain)
    requires
        c.lifecycle is Temporary,
        is_write(c.method@),
        (spec_resolve_value_type(c, f.bindings@) matches Some(ty) && (is_critical_type(model, ty)
            || spec_type_looks_critical(ty))) || (spec_key_variant(c) matches Some(v) && first_decl(
            model.decls@,
            v,
        ) matches Some(d) && d.critical),
    ensures
        chain_finding(LintRule::TemporaryCriticalType, model, f, c) matches Some(fd) && fd.rule
            == "temporary_critical_type"@ && fd.severity == Severity::Error,
{
    assert(tct_reasons(model, f, c).len() > 0);
}

/// Reaching a `storage!` entry through a lifecycle other than the declared
/// one is always an error.
pub proof fn lemma_lifecycle_mismatches_are_flagged(model: FileModel, f: FnStorage, c: StorageChain)
    requires
        spec_key_variant(c) matches Some(v) && first_decl(model.decls@, v) matches Some(d)
            && d.lifecycle != c.lifecycle,
    ensures
        chain_finding(LintRule::LifecycleMismatch, model, f, c) matches Some(fd) && fd.rule
            == "lifecycle_mismatch"@ && fd.severity == Severity::Error,
{
}

} // verus!

verus! {

proof fn lemma_first_part_leads_joined(parts: Seq<Seq<char>>, sep: Seq<char>)
    requires
        parts.len() > 0,
    ensures
        parts[0].is_prefix_of(joined(parts, sep)),
    decreases parts.len(),
{
    if parts.len() > 1 {
        lemma_first_part_leads_joined(parts.drop_last(), sep);
        let rest = joined(parts.drop_last(), sep);
        assert(joined(parts, sep) == rest + sep + parts.last());
        assert(parts[0].len() <= rest.len());
        assert((rest + sep + parts.last()).subrange(0, parts[0].len() as int) =~= rest.subrange(
            0,
            parts[0].len() as int,
        ));
    }
}

proof fn lemma_chain_finding_is_reported(rule: LintRule, model: FileModel, f: FnStorage, cs: Seq<StorageChain>, j: int)
    requires
        0 <= j < cs.len(),
        chain_finding(rule, model, f, cs[j]) is Some,
    ensures
        chains_findings(rule, model, f, cs).contains(chain_finding(rule, model, f, cs[j])->Some_0),
    decreases cs.len(),
{
    let x = chain_finding(rule, model, f, cs[j])->Some_0;
    let prev = chains_findings(rule, model, f, cs.drop_last());
    if j == cs.len() - 1 {
        assert(chains_findings(rule, model, f, cs) == prev + seq![x]);
        assert((prev + seq![x])[prev.len() as int] == x);
    } else {
        assert(cs.drop_last()[j] == cs[j]);
        lemma_chain_finding_is_reported(rule, model, f, cs.drop_last(), j);
        let k = choose|k: int| 0 <= k < prev.len() && prev[k] == x;
        let rest = opt_seq(chain_finding(rule, model, f, cs.last()));
        assert(chains_findings(rule, model, f, cs) == prev + rest);
        assert((prev + rest)[k] == x);
    }
}

proof fn lemma_fn_findings_are_reported(rule: LintRule, model: FileModel, fs: Seq<FnStorage>, i: int, x: RuleFindingView)
    requires
        0 <= i < fs.len(),
        chains_findings(rule, model, fs[i], fs[i].chains@).contains(x),
    ensures
        fns_findings(rule, model, fs).contains(x),
    decreases fs.len(),
{
    let prev = fns_findings(rule, model, fs.drop_last());
    let last = chains_findings(rule, model, fs.last(), fs.last().chains@);
    assert(fns_findings(rule, model, fs) == prev + last);
    if i == fs.len() - 1 {
        let k = choose|k: int| 0 <= k < last.len() && last[k] == x;
        assert((prev + last)[prev.len() + k] == x);
    } else {
        assert(fs.drop_last()[i] == fs[i]);
        lemma_fn_findings_are_reported(rule, model, fs.drop_last(), i, x);
        let k = choose|k: int| 0 <= k < prev.len() && prev[k] == x;
        assert((prev + last)[k] == x);
    }
}

/// An instance-storage write inside a loop is always a warning, whatever its
/// value type: its finding sits at the write and its message names the loop
/// as the first reason.
pub proof fn lemma_loop_instance_writes_are_flagged(model: FileModel, f: FnStorage, c: StorageChain)
    requires
        c.lifecycle is Instance,
        is_write(c.method@),
        c.inside_loop,
    ensures
        chain_finding(LintRule::InstanceStorageBloat, model, f, c) matches Some(fd) && fd.rule
            == "instance_storage_bloat"@ && fd.severity == Severity::Warning && fd.line == c.line
            && fd.column == c.column && ("instance storage write may bloat the contract instance ("@
            + "written inside a loop (instance entry grows on every iteration)"@).is_prefix_of(
            fd.message,
        ),
{
    let reasons = isb_reasons(model, f, c);
    let lead = "instance storage write may bloat the contract instance ("@;
    let why = "written inside a loop (instance entry grows on every iteration)"@;
    assert(reasons[0] == why);
    lemma_first_part_leads_joined(reasons, "; "@);
    let j = joined(reasons, "; "@);
    let msg = lead + j + ")"@;
    assert(msg.subrange(0, (lead + why).len() as int) =~= lead + why);
}

/// An instance-storage write of a value whose type is a collection, or a
/// struct of more than `MAX_INSTANCE_STRUCT_FIELDS` fields, is always a
/// warning at the write; one outside any loop whose value type cannot be
/// resolved is never reported.
pub proof fn lemma_heavy_instance_values_are_flagged(model: FileModel, f: FnStorage, c: StorageChain)
    requires
        c.lifecycle is Instance,
        is_write(c.method@),
    ensures
        (spec_resolve_value_type(c, f.bindings@) matches Some(ty) && (spec_type_looks_collection(ty)
            || (field_count_lookup(model.struct_field_counts@, ty) matches Some(n) && n
            > MAX_INSTANCE_STRUCT_FIELDS))) ==> (chain_finding(
            LintRule::InstanceStorageBloat,
            model,
            f,
            c,
        ) matches Some(fd) && fd.rule == "instance_storage_bloat"@ && fd.severity
            == Severity::Warning && fd.line == c.line && fd.column == c.column),
        (!c.inside_loop && spec_resolve_value_type(c, f.bindings@) is None) ==> chain_finding(
            LintRule::InstanceStorageBloat,
            model,
            f,
            c,
        ) is None,
{
    if !c.inside_loop && spec_resolve_value_type(c, f.bindings@) is None {
        assert(isb_reasons(model, f, c) =~= Seq::<Seq<char>>::empty());
    }
}

/// A temporary or persistent write in a function that never extends a TTL is
/// always a `missing_ttl_extension` warning at the write.
pub proof fn lemma_unbumped_writes_are_flagged(model: FileModel, f: FnStorage, c: StorageChain)
    requires
        c.lifecycle is Temporary || c.lifecycle is Persistent,
        is_write(c.method@),
        !f.has_ttl_call,
    ensures
        chain_finding(LintRule::MissingTtlExtension, model, f, c) matches Some(fd) && fd.rule
            == "missing_ttl_extension"@ && fd.severity == Severity::Warning && fd.line == c.line
            && fd.column == c.column,
{
}

/// Every instance-storage write inside a loop, in any function of a file, is
/// among the file's `instance_storage_bloat` findings, at the write's line
/// and column.
pub proof fn lemma_loop_instance_writes_are_reported(model: FileModel, i: int, j: int)
    requires
        0 <= i < model.fns@.len(),
        0 <= j < model.fns@[i].chains@.len(),
        model.fns@[i].chains@[j].lifecycle is Instance,
        is_write(model.fns@[i].chains@[j].method@),
        model.fns@[i].chains@[j].inside_loop,
    ensures
        exists|k: int|
            0 <= k < rule_findings(LintRule::InstanceStorageBloat, model).len() && {
                let fd = #[trigger] rule_findings(LintRule::InstanceStorageBloat, model)[k];
                &&& fd.rule == "instance_storage_bloat"@
                &&& fd.severity == Severity::Warning
                &&& fd.line == model.fns@[i].chains@[j].line
                &&& fd.column == model.fns@[i].chains@[j].column
            },
{
    let f = model.fns@[i];
    let c = f.chains@[j];
    lemma_loop_instance_writes_are_flagged(model, f, c);
    let fd = chain_finding(LintRule::InstanceStorageBloat, model, f, c)->Some_0;
    lemma_chain_finding_is_reported(LintRule::InstanceStorageBloat, model, f, f.chains@, j);
    lemma_fn_findings_are_reported(LintRule::InstanceStorageBloat, model, model.fns@, i, fd);
    let all = rule_findings(LintRule::InstanceStorageBloat, model);
    let k = choose|k: int| 0 <= k < all.len() && all[k] == fd;
    assert(all[k] == fd);
}

/// Every temporary or persistent write in a function of a file that never
/// extends a TTL is among the file's `missing_ttl_extension` findings, at the
/// write's line and column.
pub proof fn lemma_unbumped_writes_are_reported(model: FileModel, i: int, j: int)
    requires
        0 <= i < model.fns@.len(),
        0 <= j < model.fns@[i].chains@.len(),
        model.fns@[i].chains@[j].lifecycle is Temporary || model.fns@[i].chains@[j].lifecycle
            is Persistent,
        is_write(model.fns@[i].chains@[j].method@),
        !model.fns@[i].has_ttl_call,
    ensures
        exists|k: int|
            0 <= k < rule_findings(LintRule::MissingTtlExtension, model).len() && {
                let fd = #[trigger] rule_findings(LintRule::MissingTtlExtension, model)[k];
                &&& fd.rule == "missing_ttl_extension"@
                &&& fd.severity == Severity::Warning
                &&& fd.line == model.fns@[i].chains@[j].line
                &&& fd.column == model.fns@[i].chains@[j].column
            },
{
    let f = model.fns@[i];
    let c = f.chains@[j];
    lemma_unbumped_writes_are_flagged(model, f, c);
    let fd = chain_finding(LintRule::MissingTtlExtension, model, f, c)->Some_0;
    lemma_chain_finding_is_reported(LintRule::MissingTtlExtension, model, f, f.chains@, j);
    lemma_fn_findings_are_reported(LintRule::MissingTtlExtension, model, model.fns@, i, fd);
    let all = rule_findings(LintRule::MissingTtlExtension, model);
    let k = choose|k: int| 0 <= k < all.len() && all[k] == fd;
    assert(all[k] == fd);
}

} // verus!
