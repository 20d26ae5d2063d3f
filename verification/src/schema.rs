//! The meaning of a `storage!` declaration: which options each entry carries,
//! how repeated `#[storage(...)]` attributes combine, and which declarations
//! are rejected.
//!
//! Every entry must name exactly one lifecycle, and a `critical` entry may
//! never be `temporary`: such declarations are refused before any accessor is
//! generated.

use vstd::prelude::*;
use crate::lifecycle::Lifecycle;
use crate::grammar::{
    EntryShape, Token, TokenKind, expr_end, find_expr_end, find_group_end, find_path_end, group_end,
    ident_at, ident_is, is_ident, is_open, is_punct, lemma_body_entries_in_bounds,
    lemma_expr_end_bounds, lemma_group_end_bounds, path_end, punct_at, ranges_view, shapes_view,
    storage_body, storage_entries, tokens_string, tokens_text,
};
use crate::lints::parse::{
    attr_lifecycle, decl_critical, decl_lifecycle, decl_matches, keyword_list, spec_lifecycle_from_word,
    storage_attr_lists, storage_attr_words, StorageDecl,
};
use crate::text::{concat3, str_eq};

verus! {

/// One option written inside `#[storage(...)]`.
pub enum StorageOption {
    /// `persistent`
    Persistent,
    /// `temporary`
    Temporary,
    /// `instance`
    Instance,
    /// `critical`
    Critical,
    /// `auto_bump`, or `auto_bump = <bool>` when a literal follows.
    AutoBump(Option<bool>),
    /// `no_bump`
    NoBump,
    /// `policy = <expr>`, with the source text of the expression.
    Policy(String),
    /// Any other identifier.
    Unknown(String),
}

/// An attribute written above a declared entry.
pub enum EntryAttr {
    /// `#[storage(...)]` with its options, in order.
    Storage(Vec<StorageOption>),
    /// A doc comment line, carried over to the generated accessor.
    Doc(String),
    /// Any other attribute; it plays no part in the declaration.
    Other,
}

/// One declared entry: `Name(ArgTypes..) -> ValueType`, with its attributes.
pub struct StorageEntry {
    pub attrs: Vec<EntryAttr>,
    pub name: String,
    pub arg_types: Vec<String>,
    pub value_type: String,
}

/// The options of one entry after parsing and merging.
pub struct StorageOpts {
    pub lifecycle: Option<Lifecycle>,
    pub critical: bool,
    pub auto_bump: bool,
    /// Whether `auto_bump` or `no_bump` was written; an attribute that names
    /// neither leaves the setting of earlier attributes in place.
    pub bump_named: bool,
    pub policy: Option<String>,
}

/// What an accepted entry generates from: its accessor name, lifecycle, flags,
/// custom policy expression (if any) and doc lines.
pub struct EntrySpec {
    pub key_struct: String,
    pub lifecycle: Lifecycle,
    pub critical: bool,
    pub auto_bump: bool,
    pub policy: Option<String>,
    pub docs: Vec<String>,
}

/// A rejected declaration: the offending entry (none when the declaration is
/// empty) and the compile error to report.
pub struct SchemaError {
    pub entry: Option<usize>,
    pub message: String,
}

/// The options of one entry, as mathematical values.
pub struct OptsView {
    pub lifecycle: Option<Lifecycle>,
    pub critical: bool,
    pub auto_bump: bool,
    pub bump_named: bool,
    pub policy: Option<Seq<char>>,
}

impl StorageOpts {
    pub open spec fn view_opts(&self) -> OptsView {
        OptsView {
            lifecycle: self.lifecycle,
            critical: self.critical,
            auto_bump: self.auto_bump,
            bump_named: self.bump_named,
            policy: self.policy.deep_view(),
        }
    }
}

pub open spec fn unknown_option_message(name: Seq<char>) -> Seq<char> {
    "unknown storage option `"@ + name
        + "` (expected `persistent`, `temporary`, `instance`, `critical`, `auto_bump`, `no_bump`, or `policy = ...`)"@
}

pub open spec fn empty_declaration_message() -> Seq<char> {
    "`storage!` requires at least one entry"@
}

pub open spec fn missing_lifecycle_message() -> Seq<char> {
    "storage entry requires an explicit lifecycle: add `#[storage(persistent)]`, `#[storage(temporary)]`, or `#[storage(instance)]`"@
}

pub open spec fn critical_temporary_message() -> Seq<char> {
    "critical entry declared `temporary`: temporary entries are permanently deleted when their TTL expires and can never be restored. Use `persistent` (or `instance`) for data that cannot be recreated."@
}

/// The options one `#[storage(...)]` starts from: automatic bumping is on,
/// and not yet named.
pub open spec fn fresh_opts() -> OptsView {
    OptsView { lifecycle: None, critical: false, auto_bump: true, bump_named: false, policy: None }
}

/// The options an entry starts from before any attribute is merged in:
/// automatic bumping is on by default.
pub open spec fn unset_opts() -> OptsView {
    OptsView { lifecycle: None, critical: false, auto_bump: true, bump_named: false, policy: None }
}

pub open spec fn with_lifecycle(v: OptsView, l: Lifecycle) -> OptsView {
    OptsView { lifecycle: Some(l), ..v }
}

pub open spec fn with_bump(v: OptsView, b: bool) -> OptsView {
    OptsView { auto_bump: b, bump_named: true, ..v }
}

/// The effect of one option: the later of two options on the same setting wins.
pub open spec fn apply_option(v: OptsView, o: StorageOption) -> Result<OptsView, Seq<char>> {
    match o {
        StorageOption::Persistent => Ok(with_lifecycle(v, Lifecycle::Persistent)),
        StorageOption::Temporary => Ok(with_lifecycle(v, Lifecycle::Temporary)),
        StorageOption::Instance => Ok(with_lifecycle(v, Lifecycle::Instance)),
        StorageOption::Critical => Ok(OptsView { critical: true, ..v }),
        StorageOption::AutoBump(b) => Ok(
            with_bump(
                v,
                match b {
                    Some(x) => x,
                    None => true,
                },
            ),
        ),
        StorageOption::NoBump => Ok(with_bump(v, false)),
        StorageOption::Policy(e) => Ok(OptsView { policy: Some(e@), ..v }),
        StorageOption::Unknown(n) => Err(unknown_option_message(n@)),
    }
}

/// The options of one `#[storage(...)]`, or the error of its first unknown option.
pub open spec fn parsed_opts(os: Seq<StorageOption>) -> Result<OptsView, Seq<char>>
    decreases os.len(),
{
    if os.len() == 0 {
        Ok(fresh_opts())
    } else {
        match parsed_opts(os.drop_last()) {
            Ok(v) => apply_option(v, os.last()),
            Err(e) => Err(e),
        }
    }
}

/// Folding one attribute's options into what the earlier attributes gave:
/// a lifecycle or policy replaces the earlier one, `critical` accumulates, and
/// automatic bumping changes only where the later attribute names
/// `auto_bump` or `no_bump`.
pub open spec fn merge_into(m: OptsView, p: OptsView) -> OptsView {
    OptsView {
        lifecycle: if p.lifecycle is Some { p.lifecycle } else { m.lifecycle },
        critical: m.critical || p.critical,
        auto_bump: if p.bump_named { p.auto_bump } else { m.auto_bump },
        bump_named: m.bump_named || p.bump_named,
        policy: if p.policy is Some { p.policy } else { m.policy },
    }
}

/// The merged options of all `#[storage(...)]` attributes of an entry.
pub open spec fn merged_opts(attrs: Seq<EntryAttr>) -> Result<OptsView, Seq<char>>
    decreases attrs.len(),
{
    if attrs.len() == 0 {
        Ok(unset_opts())
    } else {
        match merged_opts(attrs.drop_last()) {
            Err(e) => Err(e),
            Ok(m) => match attrs.last() {
                EntryAttr::Storage(os) => match parsed_opts(os@) {
                    Ok(p) => Ok(merge_into(m, p)),
                    Err(e) => Err(e),
                },
                _ => Ok(m),
            },
        }
    }
}

/// The options of an entry if the declaration accepts it, else its error.
pub open spec fn resolved_entry(attrs: Seq<EntryAttr>) -> Result<OptsView, Seq<char>> {
    match merged_opts(attrs) {
        Err(e) => Err(e),
        Ok(o) => if o.lifecycle is None {
            Err(missing_lifecycle_message())
        } else if o.critical && o.lifecycle == Some(Lifecycle::Temporary) {
            Err(critical_temporary_message())
        } else {
            Ok(o)
        },
    }
}

/// The doc lines among an entry's attributes, in order.
pub open spec fn doc_lines(attrs: Seq<EntryAttr>) -> Seq<Seq<char>>
    decreases attrs.len(),
{
    if attrs.len() == 0 {
        Seq::empty()
    } else {
        let rest = doc_lines(attrs.drop_last());
        match attrs.last() {
            EntryAttr::Doc(d) => rest.push(d@),
            _ => rest,
        }
    }
}

/// The index of the first rejected entry, if any.
pub open spec fn first_rejected(es: Seq<StorageEntry>) -> Option<int>
    decreases es.len(),
{
    if es.len() == 0 {
        None
    } else {
        match first_rejected(es.drop_last()) {
            Some(i) => Some(i),
            None => if resolved_entry(es.last().attrs@) is Err {
                Some(es.len() - 1)
            } else {
                None
            },
        }
    }
}

proof fn lemma_first_rejected_step(es: Seq<StorageEntry>, n: int)
    requires
        0 <= n < es.len(),
        first_rejected(es.take(n)) is None,
    ensures
        resolved_entry(es[n].attrs@) is Ok ==> first_rejected(es.take(n + 1)) is None,
        resolved_entry(es[n].attrs@) is Err ==> first_rejected(es.take(n + 1)) == Some(n),
{
    assert(es.take(n + 1).drop_last() =~= es.take(n));
}

proof fn lemma_first_rejected_extends(es: Seq<StorageEntry>, n: int)
    requires
        0 <= n <= es.len(),
        first_rejected(es.take(n)) is Some,
    ensures
        first_rejected(es) == first_rejected(es.take(n)),
    decreases es.len() - n,
{
    if n < es.len() {
        assert(es.take(n + 1).drop_last() =~= es.take(n));
        lemma_first_rejected_extends(es, n + 1);
    } else {
        assert(es.take(n) =~= es);
    }
}

fn policy_text(e: &String) -> (r: String)
    ensures
        r@ == e@,
{
    e.clone()
}

impl StorageOpts {
    /// Parses the options of one `#[storage(...)]`: the lifecycle keyword,
    /// `critical`, `auto_bump` (on unless turned off), `no_bump` and
    /// `policy = ...`. An unknown option is an error naming it.
    pub fn parse(options: &Vec<StorageOption>) -> (r: Result<StorageOpts, String>)
        ensures
            match parsed_opts(options@) {
                Ok(v) => r is Ok && r->Ok_0.view_opts() == v,
                Err(e) => r is Err && r->Err_0@ == e,
            },
    {
        let mut opts = StorageOpts {
            lifecycle: None,
            critical: false,
            auto_bump: true,
            bump_named: false,
            policy: None,
        };
        let mut i: usize = 0;
        while i < options.len()
            invariant
                i <= options.len(),
                parsed_opts(options@.take(i as int)) == Ok::<OptsView, Seq<char>>(opts.view_opts()),
            decreases options.len() - i,
        {
            proof {
                assert(options@.take(i + 1).drop_last() =~= options@.take(i as int));
                assert(options@.take(i + 1).last() == options@[i as int]);
            }
            match &options[i] {
                StorageOption::Persistent => opts.lifecycle = Some(Lifecycle::Persistent),
                StorageOption::Temporary => opts.lifecycle = Some(Lifecycle::Temporary),
                StorageOption::Instance => opts.lifecycle = Some(Lifecycle::Instance),
                StorageOption::Critical => opts.critical = true,
                StorageOption::AutoBump(b) => {
                    opts.auto_bump = match b {
                        Some(x) => *x,
                        None => true,
                    };
                    opts.bump_named = true;
                },
                StorageOption::NoBump => {
                    opts.auto_bump = false;
                    opts.bump_named = true;
                },
                StorageOption::Policy(e) => opts.policy = Some(policy_text(e)),
                StorageOption::Unknown(n) => {
                    let msg = concat3(
                        "unknown storage option `",
                        n.as_str(),
                        "` (expected `persistent`, `temporary`, `instance`, `critical`, `auto_bump`, `no_bump`, or `policy = ...`)",
                    );
                    proof {
                        reveal_strlit("unknown storage option `");
                        reveal_strlit(
                            "` (expected `persistent`, `temporary`, `instance`, `critical`, `auto_bump`, `no_bump`, or `policy = ...`)",
                        );
                        lemma_parse_error_sticks(options@, i as int + 1);
                    }
                    return Err(msg);
                },
            }
            i = i + 1;
        }
        proof {
            assert(options@.take(options.len() as int) =~= options@);
        }
        Ok(opts)
    }
}

proof fn lemma_parse_error_sticks(os: Seq<StorageOption>, n: int)
    requires
        0 <= n <= os.len(),
        parsed_opts(os.take(n)) is Err,
    ensures
        parsed_opts(os) == parsed_opts(os.take(n)),
    decreases os.len() - n,
{
    if n < os.len() {
        assert(os.take(n + 1).drop_last() =~= os.take(n));
        lemma_parse_error_sticks(os, n + 1);
    } else {
        assert(os.take(n) =~= os);
    }
}

proof fn lemma_merge_error_sticks(attrs: Seq<EntryAttr>, n: int)
    requires
        0 <= n <= attrs.len(),
        merged_opts(attrs.take(n)) is Err,
    ensures
        merged_opts(attrs) == merged_opts(attrs.take(n)),
    decreases attrs.len() - n,
{
    if n < attrs.len() {
        assert(attrs.take(n + 1).drop_last() =~= attrs.take(n));
        lemma_merge_error_sticks(attrs, n + 1);
    } else {
        assert(attrs.take(n) =~= attrs);
    }
}

/// Merges every `#[storage(...)]` attribute of an entry, in order (other
/// attributes are skipped): a later lifecycle or policy replaces an earlier
/// one, `critical` accumulates, and automatic bumping (on by default) is set
/// by the last attribute that names `auto_bump` or `no_bump`. The first
/// unknown option is an error.
pub fn merge_opts(attrs: &Vec<EntryAttr>) -> (r: Result<StorageOpts, String>)
    ensures
        match merged_opts(attrs@) {
            Ok(v) => r is Ok && r->Ok_0.view_opts() == v,
            Err(e) => r is Err && r->Err_0@ == e,
        },
{
    let mut merged = StorageOpts {
        lifecycle: None,
        critical: false,
        auto_bump: true,
        bump_named: false,
        policy: None,
    };
    let mut i: usize = 0;
    while i < attrs.len()
        invariant
            i <= attrs.len(),
            merged_opts(attrs@.take(i as int)) == Ok::<OptsView, Seq<char>>(merged.view_opts()),
        decreases attrs.len() - i,
    {
        proof {
            assert(attrs@.take(i + 1).drop_last() =~= attrs@.take(i as int));
            assert(attrs@.take(i + 1).last() == attrs@[i as int]);
        }
        match &attrs[i] {
            EntryAttr::Storage(os) => {
                match StorageOpts::parse(os) {
                    Ok(parsed) => {
                        if parsed.lifecycle.is_some() {
                            merged.lifecycle = parsed.lifecycle;
                        }
                        merged.critical = merged.critical || parsed.critical;
                        if parsed.bump_named {
                            merged.auto_bump = parsed.auto_bump;
                            merged.bump_named = true;
                        }
                        if parsed.policy.is_some() {
                            merged.policy = parsed.policy;
                        }
                    },
                    Err(e) => {
                        proof {
                            lemma_merge_error_sticks(attrs@, i as int + 1);
                        }
                        return Err(e);
                    },
                }
            },
            _ => {},
        }
        i = i + 1;
    }
    proof {
        assert(attrs@.take(attrs.len() as int) =~= attrs@);
    }
    Ok(merged)
}

fn doc_texts(attrs: &Vec<EntryAttr>) -> (r: Vec<String>)
    ensures
        r.deep_view() == doc_lines(attrs@),
{
    let mut out: Vec<String> = Vec::new();
    let mut i: usize = 0;
    while i < attrs.len()
        invariant
            i <= attrs.len(),
            out.deep_view() == doc_lines(attrs@.take(i as int)),
        decreases attrs.len() - i,
    {
        proof {
            assert(attrs@.take(i + 1).drop_last() =~= attrs@.take(i as int));
            assert(attrs@.take(i + 1).last() == attrs@[i as int]);
        }
        match &attrs[i] {
            EntryAttr::Doc(d) => {
                let ghost before = out.deep_view();
                out.push(d.clone());
                proof {
                    assert(out.deep_view() =~= before.push(d@));
                }
            },
            _ => {},
        }
        i = i + 1;
    }
    proof {
        assert(attrs@.take(attrs.len() as int) =~= attrs@);
    }
    out
}

/// The accessor generated for an accepted entry, from its resolved options.
pub open spec fn entry_spec_matches(s: EntrySpec, e: StorageEntry, o: OptsView) -> bool {
    &&& s.key_struct@ == e.name@ + "Key"@
    &&& o.lifecycle == Some(s.lifecycle)
    &&& s.critical == o.critical
    &&& s.auto_bump == o.auto_bump
    &&& s.policy.deep_view() == o.policy
    &&& s.docs.deep_view() == doc_lines(e.attrs@)
}

/// Resolves a `storage!` declaration. It is refused when it declares no
/// entry, and otherwise at its first entry whose options hold an unknown
/// option, that names no lifecycle, or that is `critical` and `temporary`;
/// else every entry gets its accessor, in order.
pub fn plan_storage(entries: &Vec<StorageEntry>) -> (r: Result<Vec<EntrySpec>, SchemaError>)
    ensures
        entries.len() == 0 ==> r is Err && r->Err_0.entry is None && r->Err_0.message@
            == empty_declaration_message(),
        entries.len() > 0 ==> match first_rejected(entries@) {
            None => r is Ok && r->Ok_0.len() == entries.len() && forall|i: int|
                0 <= i < entries.len() ==> #[trigger] resolved_entry(entries@[i].attrs@) is Ok
                    && entry_spec_matches(
                    r->Ok_0@[i],
                    entries@[i],
                    resolved_entry(entries@[i].attrs@)->Ok_0,
                ),
            Some(k) => r is Err && r->Err_0.entry == Some(k as usize) && r->Err_0.message@
                == resolved_entry(entries@[k].attrs@)->Err_0,
        },
{
    if entries.len() == 0 {
        let message = String::from_str("`storage!` requires at least one entry");
        proof {
            reveal_strlit("`storage!` requires at least one entry");
        }
        return Err(SchemaError { entry: None, message });
    }
    let mut out: Vec<EntrySpec> = Vec::new();
    let mut i: usize = 0;
    while i < entries.len()
        invariant
            i <= entries.len(),
            out.len() == i,
            first_rejected(entries@.take(i as int)) is None,
            forall|j: int|
                0 <= j < i ==> #[trigger] resolved_entry(entries@[j].attrs@) is Ok && entry_spec_matches(
                    out@[j],
                    entries@[j],
                    resolved_entry(entries@[j].attrs@)->Ok_0,
                ),
        decreases entries.len() - i,
    {
        let entry = &entries[i];
        proof {
            lemma_first_rejected_step(entries@, i as int);
        }
        let opts = match merge_opts(&entry.attrs) {
            Ok(o) => o,
            Err(message) => {
                proof {
                    lemma_first_rejected_extends(entries@, i as int + 1);
                }
                return Err(SchemaError { entry: Some(i), message });
            },
        };
        let lifecycle = match opts.lifecycle {
            Some(l) => l,
            None => {
                let message = String::from_str(
                    "storage entry requires an explicit lifecycle: add `#[storage(persistent)]`, `#[storage(temporary)]`, or `#[storage(instance)]`",
                );
                proof {
                    reveal_strlit(
                        "storage entry requires an explicit lifecycle: add `#[storage(persistent)]`, `#[storage(temporary)]`, or `#[storage(instance)]`",
                    );
                    lemma_first_rejected_extends(entries@, i as int + 1);
                }
                return Err(SchemaError { entry: Some(i), message });
            },
        };
        if opts.critical && matches!(lifecycle, Lifecycle::Temporary) {
            let message = String::from_str(
                "critical entry declared `temporary`: temporary entries are permanently deleted when their TTL expires and can never be restored. Use `persistent` (or `instance`) for data that cannot be recreated.",
            );
            proof {
                reveal_strlit(
                    "critical entry declared `temporary`: temporary entries are permanently deleted when their TTL expires and can never be restored. Use `persistent` (or `instance`) for data that cannot be recreated.",
                );
                lemma_first_rejected_extends(entries@, i as int + 1);
            }
            return Err(SchemaError { entry: Some(i), message });
        }
        let key_struct = entry.name.clone().concat("Key");
        proof {
            reveal_strlit("Key");
        }
        let docs = doc_texts(&entry.attrs);
        let spec = EntrySpec {
            key_struct,
            lifecycle,
            critical: opts.critical,
            auto_bump: opts.auto_bump,
            policy: opts.policy,
            docs,
        };
        out.push(spec);
        i = i + 1;
    }
    proof {
        assert(entries@.take(entries.len() as int) =~= entries@);
    }
    Ok(out)
}

/// No accepted declaration holds a critical entry in temporary storage, and
/// every accepted entry names its lifecycle.
pub proof fn lemma_accepted_entries_are_safe(attrs: Seq<EntryAttr>)
    requires
        resolved_entry(attrs) is Ok,
    ensures
        resolved_entry(attrs)->Ok_0.lifecycle is Some,
        resolved_entry(attrs)->Ok_0.critical ==> resolved_entry(attrs)->Ok_0.lifecycle
            != Some(Lifecycle::Temporary),
{
}

/// An entry marked `critical` in any of its attributes and given the
/// `temporary` lifecycle by its last lifecycle option is always refused.
pub proof fn lemma_critical_temporary_is_refused(attrs: Seq<EntryAttr>)
    requires
        merged_opts(attrs) is Ok,
        merged_opts(attrs)->Ok_0.critical,
        merged_opts(attrs)->Ok_0.lifecycle == Some(Lifecycle::Temporary),
    ensures
        resolved_entry(attrs) == Err::<OptsView, Seq<char>>(critical_temporary_message()),
{
}


/// An option of `#[storage(...)]`, as a mathematical value.
pub enum OptionView {
    Persistent,
    Temporary,
    Instance,
    Critical,
    AutoBump(Option<bool>),
    NoBump,
    Policy(Seq<char>),
    Unknown(Seq<char>),
}

pub open spec fn option_view(o: StorageOption) -> OptionView {
    match o {
        StorageOption::Persistent => OptionView::Persistent,
        StorageOption::Temporary => OptionView::Temporary,
        StorageOption::Instance => OptionView::Instance,
        StorageOption::Critical => OptionView::Critical,
        StorageOption::AutoBump(b) => OptionView::AutoBump(b),
        StorageOption::NoBump => OptionView::NoBump,
        StorageOption::Policy(e) => OptionView::Policy(e@),
        StorageOption::Unknown(n) => OptionView::Unknown(n@),
    }
}

/// An attribute of an entry, as a mathematical value.
pub enum AttrView {
    Storage(Seq<OptionView>),
    Doc(Seq<char>),
    Other,
}

pub open spec fn attr_view(a: EntryAttr) -> AttrView {
    match a {
        EntryAttr::Storage(os) => AttrView::Storage(os@.map_values(|o: StorageOption| option_view(o))),
        EntryAttr::Doc(d) => AttrView::Doc(d@),
        EntryAttr::Other => AttrView::Other,
    }
}

/// The option names `#[storage(...)]` knows.
pub open spec fn known_option(n: Seq<char>) -> bool {
    n == "persistent"@ || n == "temporary"@ || n == "instance"@ || n == "critical"@ || n == "no_bump"@
        || n == "auto_bump"@ || n == "policy"@
}

/// The known option that starts at identifier `i`, and the index after it:
/// `auto_bump` may be followed by `= true` or `= false`, and `policy` must be
/// followed by `=` and an expression.
pub open spec fn option_at(ts: Seq<Token>, i: int, b: int) -> Option<(OptionView, int)> {
    let n = ts[i].kind->Ident_0@;
    if n == "persistent"@ {
        Some((OptionView::Persistent, i + 1))
    } else if n == "temporary"@ {
        Some((OptionView::Temporary, i + 1))
    } else if n == "instance"@ {
        Some((OptionView::Instance, i + 1))
    } else if n == "critical"@ {
        Some((OptionView::Critical, i + 1))
    } else if n == "no_bump"@ {
        Some((OptionView::NoBump, i + 1))
    } else if n == "auto_bump"@ {
        if i + 1 < b && punct_at(ts, i + 1, '=') {
            if i + 2 < b && ident_is(ts, i + 2, "true"@) {
                Some((OptionView::AutoBump(Some(true)), i + 3))
            } else if i + 2 < b && ident_is(ts, i + 2, "false"@) {
                Some((OptionView::AutoBump(Some(false)), i + 3))
            } else {
                None
            }
        } else {
            Some((OptionView::AutoBump(None), i + 1))
        }
    } else if n == "policy"@ && i + 1 < b && punct_at(ts, i + 1, '=') {
        match expr_end(ts, i + 2, b, 0) {
            Some(e) => if i + 2 < e {
                Some((OptionView::Policy(tokens_text(ts, i + 2, e)), e))
            } else {
                None
            },
            None => None,
        }
    } else {
        None
    }
}

/// The options of a `#[storage(...)]` list whose contents run from `i` to
/// `b`: options separated by commas, a trailing comma allowed. An unknown
/// option ends the list (it is reported as the declaration's error);
/// `None` when the list is malformed.
pub open spec fn option_list(ts: Seq<Token>, i: int, b: int) -> Option<Seq<OptionView>>
    decreases b - i,
{
    if i < b && ident_at(ts, i) {
        let n = ts[i].kind->Ident_0@;
        if known_option(n) {
            match option_at(ts, i, b) {
                Some((o, j)) => if i < j && j < b && punct_at(ts, j, ',') {
                    match option_list(ts, j + 1, b) {
                        Some(rest) => Some(seq![o] + rest),
                        None => None,
                    }
                } else if j == b {
                    Some(seq![o])
                } else {
                    None
                },
                None => None,
            }
        } else {
            Some(seq![OptionView::Unknown(n)])
        }
    } else if i == b {
        Some(seq![])
    } else {
        None
    }
}

/// The attribute with contents `s..t`, as the declaration reads it: its
/// options when its path is `storage` (`None` when they are malformed), a
/// doc line when its path is `doc`, and nothing more otherwise.
pub open spec fn entry_attr(ts: Seq<Token>, s: int, t: int) -> Option<AttrView> {
    if ident_is(ts, s, "storage"@) && path_end(ts, s + 1, t) == s + 1 {
        if s + 1 < t && ts[s + 1].kind is Open && group_end(ts, s + 2, 1) == Some(t) {
            match option_list(ts, s + 2, t - 1) {
                Some(os) => Some(AttrView::Storage(os)),
                None => None,
            }
        } else {
            None
        }
    } else if ident_is(ts, s, "doc"@) && path_end(ts, s + 1, t) == s + 1 {
        Some(AttrView::Doc(tokens_text(ts, s, t)))
    } else {
        Some(AttrView::Other)
    }
}

/// The attributes of an entry, in order; `None` when one is malformed.
pub open spec fn entry_attrs(ts: Seq<Token>, attrs: Seq<(int, int)>) -> Option<Seq<AttrView>>
    decreases attrs.len(),
{
    if attrs.len() == 0 {
        Some(seq![])
    } else {
        match (entry_attrs(ts, attrs.drop_last()), entry_attr(ts, attrs.last().0, attrs.last().1)) {
            (Some(rest), Some(a)) => Some(rest.push(a)),
            _ => None,
        }
    }
}

/// Whether `e` is the declared entry the tokens show at `sh`.
pub open spec fn entry_matches(e: StorageEntry, ts: Seq<Token>, sh: EntryShape) -> bool {
    &&& entry_attrs(ts, sh.attrs) == Some(e.attrs@.map_values(|a: EntryAttr| attr_view(a)))
    &&& 0 <= sh.name < ts.len()
    &&& e.name@ == ts[sh.name].kind->Ident_0@
    &&& e.arg_types.len() == sh.args.len()
    &&& forall|k: int|
        0 <= k < sh.args.len() ==> (#[trigger] e.arg_types@[k])@ == tokens_text(ts, sh.args[k].0, sh.args[k].1)
    &&& e.value_type@ == tokens_text(ts, sh.value.0, sh.value.1)
}

pub open spec fn malformed_declaration_message() -> Seq<char> {
    "expected `storage!` entries of the form `Name(Type, ..) -> Type,`, each after its `#[...]` attributes"@
}

pub open spec fn malformed_attribute_message() -> Seq<char> {
    "malformed `#[storage(...)]` attribute: expected options separated by commas"@
}


fn ident_text(ts: &Vec<Token>, i: usize) -> (r: String)
    requires
        ident_at(ts@, i as int),
    ensures
        r@ == ts@[i as int].kind->Ident_0@,
{
    match &ts[i].kind {
        TokenKind::Ident(n) => n.clone(),
        _ => String::new(),
    }
}

fn ident_equals(ts: &Vec<Token>, i: usize, name: &str) -> (r: bool)
    ensures
        r == ident_is(ts@, i as int, name@),
{
    if i < ts.len() {
        match &ts[i].kind {
            TokenKind::Ident(n) => str_eq(n.as_str(), name),
            _ => false,
        }
    } else {
        false
    }
}

fn read_option(ts: &Vec<Token>, i: usize, b: usize) -> (r: Option<(StorageOption, usize)>)
    requires
        i < b <= ts.len(),
        ident_at(ts@, i as int),
        known_option(ts@[i as int].kind->Ident_0@),
    ensures
        r matches Some((o, j)) ==> option_at(ts@, i as int, b as int) == Some((option_view(o), j as int))
            && j <= b,
        r is None ==> option_at(ts@, i as int, b as int) is None,
{
    let n = ident_text(ts, i);
    proof {
        reveal_strlit("persistent");
        reveal_strlit("temporary");
        reveal_strlit("instance");
        reveal_strlit("critical");
        reveal_strlit("no_bump");
        reveal_strlit("auto_bump");
        reveal_strlit("policy");
        reveal_strlit("true");
        reveal_strlit("false");
    }
    if str_eq(n.as_str(), "persistent") {
        Some((StorageOption::Persistent, i + 1))
    } else if str_eq(n.as_str(), "temporary") {
        Some((StorageOption::Temporary, i + 1))
    } else if str_eq(n.as_str(), "instance") {
        Some((StorageOption::Instance, i + 1))
    } else if str_eq(n.as_str(), "critical") {
        Some((StorageOption::Critical, i + 1))
    } else if str_eq(n.as_str(), "no_bump") {
        Some((StorageOption::NoBump, i + 1))
    } else if str_eq(n.as_str(), "auto_bump") {
        if i + 1 < b && is_punct(ts, i + 1, '=') {
            if i + 2 < b && ident_equals(ts, i + 2, "true") {
                Some((StorageOption::AutoBump(Some(true)), i + 3))
            } else if i + 2 < b && ident_equals(ts, i + 2, "false") {
                Some((StorageOption::AutoBump(Some(false)), i + 3))
            } else {
                None
            }
        } else {
            Some((StorageOption::AutoBump(None), i + 1))
        }
    } else if i + 1 < b && is_punct(ts, i + 1, '=') {
        proof {
            lemma_expr_end_bounds(ts@, i + 2, b as int, 0);
        }
        match find_expr_end(ts, i + 2, b, 0) {
            Some(e) => {
                if i + 2 < e {
                    Some((StorageOption::Policy(tokens_string(ts, i + 2, e)), e))
                } else {
                    None
                }
            },
            None => None,
        }
    } else {
        None
    }
}

fn read_options(ts: &Vec<Token>, i: usize, b: usize) -> (r: Option<Vec<StorageOption>>)
    requires
        i <= b <= ts.len(),
    ensures
        r matches Some(v) ==> option_list(ts@, i as int, b as int) == Some(
            v@.map_values(|o: StorageOption| option_view(o)),
        ),
        r is None ==> option_list(ts@, i as int, b as int) is None,
    decreases b - i,
{
    if i < b && is_ident(ts, i) {
        let n = ident_text(ts, i);
        proof {
            reveal_strlit("persistent");
            reveal_strlit("temporary");
            reveal_strlit("instance");
            reveal_strlit("critical");
            reveal_strlit("no_bump");
            reveal_strlit("auto_bump");
            reveal_strlit("policy");
        }
        let known = str_eq(n.as_str(), "persistent") || str_eq(n.as_str(), "temporary") || str_eq(
            n.as_str(),
            "instance",
        ) || str_eq(n.as_str(), "critical") || str_eq(n.as_str(), "no_bump") || str_eq(
            n.as_str(),
            "auto_bump",
        ) || str_eq(n.as_str(), "policy");
        if !known {
            let mut v: Vec<StorageOption> = Vec::new();
            v.push(StorageOption::Unknown(n));
            proof {
                assert(v@.map_values(|o: StorageOption| option_view(o)) =~= seq![
                    OptionView::Unknown(ts@[i as int].kind->Ident_0@),
                ]);
            }
            return Some(v);
        }
        match read_option(ts, i, b) {
            Some((o, j)) => {
                if i < j && j < b && is_punct(ts, j, ',') {
                    match read_options(ts, j + 1, b) {
                        Some(rest) => {
                            let ghost before = rest@.map_values(|x: StorageOption| option_view(x));
                            let ghost ov = option_view(o);
                            let mut rest = rest;
                            rest.insert(0, o);
                            proof {
                                assert(rest@.map_values(|x: StorageOption| option_view(x)) =~= seq![ov]
                                    + before);
                            }
                            Some(rest)
                        },
                        None => None,
                    }
                } else if j == b {
                    let ghost ov = option_view(o);
                    let mut v: Vec<StorageOption> = Vec::new();
                    v.push(o);
                    proof {
                        assert(v@.map_values(|x: StorageOption| option_view(x)) =~= seq![ov]);
                    }
                    Some(v)
                } else {
                    None
                }
            },
            None => None,
        }
    } else if i == b {
        let v: Vec<StorageOption> = Vec::new();
        proof {
            assert(v@.map_values(|x: StorageOption| option_view(x)) =~= Seq::<OptionView>::empty());
        }
        Some(v)
    } else {
        None
    }
}

fn read_entry_attr(ts: &Vec<Token>, s: usize, t: usize) -> (r: Option<EntryAttr>)
    requires
        s <= t <= ts.len(),
    ensures
        r matches Some(a) ==> entry_attr(ts@, s as int, t as int) == Some(attr_view(a)),
        r is None ==> entry_attr(ts@, s as int, t as int) is None,
{
    let one_segment = s >= t || find_path_end(ts, s + 1, t) == s + 1;
    if ident_equals(ts, s, "storage") && one_segment {
        proof {
            reveal_strlit("storage");
            if s + 1 < t {
                lemma_group_end_bounds(ts@, s + 2, 1);
            }
        }
        if s + 1 < t && is_open(ts, s + 1) {
            match find_group_end(ts, s + 2, 1) {
                Some(e) => {
                    if e == t {
                        return match read_options(ts, s + 2, t - 1) {
                            Some(os) => Some(EntryAttr::Storage(os)),
                            None => None,
                        };
                    }
                },
                None => {},
            }
        }
        None
    } else if ident_equals(ts, s, "doc") && one_segment {
        proof {
            reveal_strlit("storage");
            reveal_strlit("doc");
        }
        Some(EntryAttr::Doc(tokens_string(ts, s, t)))
    } else {
        proof {
            reveal_strlit("storage");
            reveal_strlit("doc");
        }
        Some(EntryAttr::Other)
    }
}

fn read_entry_attrs(ts: &Vec<Token>, attrs: &Vec<(usize, usize)>) -> (r: Option<Vec<EntryAttr>>)
    requires
        forall|k: int| 0 <= k < attrs.len() ==> #[trigger] attrs@[k].0 <= attrs@[k].1 <= ts.len(),
    ensures
        r matches Some(v) ==> entry_attrs(ts@, ranges_view(attrs@)) == Some(
            v@.map_values(|a: EntryAttr| attr_view(a)),
        ),
        r is None ==> entry_attrs(ts@, ranges_view(attrs@)) is None,
{
    let ghost rs = ranges_view(attrs@);
    let mut out: Vec<EntryAttr> = Vec::new();
    let mut k: usize = 0;
    while k < attrs.len()
        invariant
            k <= attrs.len(),
            rs == ranges_view(attrs@),
            forall|m: int| 0 <= m < attrs.len() ==> #[trigger] attrs@[m].0 <= attrs@[m].1 <= ts.len(),
            entry_attrs(ts@, rs.take(k as int)) == Some(out@.map_values(|a: EntryAttr| attr_view(a))),
        decreases attrs.len() - k,
    {
        proof {
            assert(rs.take(k + 1).drop_last() =~= rs.take(k as int));
            assert(rs.take(k + 1).last() == (attrs@[k as int].0 as int, attrs@[k as int].1 as int));
        }
        let (s, t) = attrs[k];
        match read_entry_attr(ts, s, t) {
            Some(a) => {
                let ghost before = out@.map_values(|x: EntryAttr| attr_view(x));
                let ghost av = attr_view(a);
                out.push(a);
                proof {
                    assert(out@.map_values(|x: EntryAttr| attr_view(x)) =~= before.push(av));
                }
            },
            None => {
                proof {
                    lemma_entry_attrs_error_sticks(ts@, rs, k + 1);
                }
                return None;
            },
        }
        k = k + 1;
    }
    assert(rs.take(attrs.len() as int) =~= rs);
    Some(out)
}

proof fn lemma_entry_attrs_error_sticks(ts: Seq<Token>, rs: Seq<(int, int)>, n: int)
    requires
        0 <= n <= rs.len(),
        entry_attrs(ts, rs.take(n)) is None,
    ensures
        entry_attrs(ts, rs) is None,
    decreases rs.len() - n,
{
    if n < rs.len() {
        assert(rs.take(n + 1).drop_last() =~= rs.take(n));
        lemma_entry_attrs_error_sticks(ts, rs, n + 1);
    } else {
        assert(rs.take(n) =~= rs);
    }
}

fn token_texts(ts: &Vec<Token>, rs: &Vec<(usize, usize)>) -> (r: Vec<String>)
    requires
        forall|k: int| 0 <= k < rs.len() ==> #[trigger] rs@[k].0 <= rs@[k].1 <= ts.len(),
    ensures
        r.len() == rs.len(),
        forall|k: int|
            0 <= k < rs.len() ==> (#[trigger] r@[k])@ == tokens_text(ts@, rs@[k].0 as int, rs@[k].1 as int),
{
    let mut out: Vec<String> = Vec::new();
    let mut k: usize = 0;
    while k < rs.len()
        invariant
            k <= rs.len(),
            out.len() == k,
            forall|m: int| 0 <= m < rs.len() ==> #[trigger] rs@[m].0 <= rs@[m].1 <= ts.len(),
            forall|m: int|
                0 <= m < k ==> (#[trigger] out@[m])@ == tokens_text(ts@, rs@[m].0 as int, rs@[m].1 as int),
        decreases rs.len() - k,
    {
        let (a, b) = rs[k];
        let t = tokens_string(ts, a, b);
        out.push(t);
        k = k + 1;
    }
    out
}

/// Reads the entries of a `storage!` body: each entry's attributes (the
/// options of `#[storage(...)]`, doc lines, and others), its name, the text
/// of its argument types and of its value type. A body that does not follow
/// the grammar, or a malformed `#[storage(...)]` option list, is an error.
pub fn parse_storage_input(tokens: &Vec<Token>) -> (r: Result<Vec<StorageEntry>, String>)
    ensures
        match storage_body(tokens@) {
            None => r matches Err(m) && m@ == malformed_declaration_message(),
            Some(shapes) => if forall|k: int|
                0 <= k < shapes.len() ==> (#[trigger] entry_attrs(tokens@, shapes[k].attrs)) is Some {
                r matches Ok(es) && es.len() == shapes.len() && forall|k: int|
                    0 <= k < es.len() ==> entry_matches(#[trigger] es@[k], tokens@, shapes[k])
            } else {
                r matches Err(m) && m@ == malformed_attribute_message()
            },
        },
{
    let entries = match storage_entries(tokens) {
        Some(es) => es,
        None => {
            proof {
                reveal_strlit(
                    "expected `storage!` entries of the form `Name(Type, ..) -> Type,`, each after its `#[...]` attributes",
                );
            }
            return Err(
                String::from_str(
                    "expected `storage!` entries of the form `Name(Type, ..) -> Type,`, each after its `#[...]` attributes",
                ),
            );
        },
    };
    let ghost shapes = shapes_view(entries@);
    let mut out: Vec<StorageEntry> = Vec::new();
    let mut k: usize = 0;
    while k < entries.len()
        invariant
            k <= entries.len(),
            storage_body(tokens@) == Some(shapes),
            shapes == shapes_view(entries@),
            out.len() == k,
            forall|m: int| 0 <= m < k ==> entry_matches(#[trigger] out@[m], tokens@, shapes[m]),
            forall|m: int| 0 <= m < k ==> (#[trigger] entry_attrs(tokens@, shapes[m].attrs)) is Some,
        decreases entries.len() - k,
    {
        let e = &entries[k];
        proof {
            lemma_body_entries_in_bounds(tokens@, shapes, k as int);
            assert(shapes[k as int] == e.shape());
            assert forall|m: int| 0 <= m < e.attrs.len() implies #[trigger] e.attrs@[m].0 <= e.attrs@[m].1
                <= tokens.len() by {
                assert(ranges_view(e.attrs@)[m] == (e.attrs@[m].0 as int, e.attrs@[m].1 as int));
            }
            assert forall|m: int| 0 <= m < e.args.len() implies #[trigger] e.args@[m].0 <= e.args@[m].1
                <= tokens.len() by {
                assert(ranges_view(e.args@)[m] == (e.args@[m].0 as int, e.args@[m].1 as int));
            }
        }
        let attrs = match read_entry_attrs(tokens, &e.attrs) {
            Some(a) => a,
            None => {
                proof {
                    reveal_strlit("malformed `#[storage(...)]` attribute: expected options separated by commas");
                }
                return Err(
                    String::from_str("malformed `#[storage(...)]` attribute: expected options separated by commas"),
                );
            },
        };
        let name = ident_text(tokens, e.name);
        let arg_types = token_texts(tokens, &e.args);
        proof {
            assert forall|m: int| 0 <= m < e.args.len() implies (#[trigger] arg_types@[m])@ == tokens_text(
                tokens@,
                shapes[k as int].args[m].0,
                shapes[k as int].args[m].1,
            ) by {
                assert(ranges_view(e.args@)[m] == (e.args@[m].0 as int, e.args@[m].1 as int));
            }
        }
        let value_type = tokens_string(tokens, e.value.0, e.value.1);
        out.push(StorageEntry { attrs, name, arg_types, value_type });
        k = k + 1;
    }
    Ok(out)
}


/// The keyword an option is written with.
pub open spec fn option_name(o: OptionView) -> Seq<char> {
    match o {
        OptionView::Persistent => "persistent"@,
        OptionView::Temporary => "temporary"@,
        OptionView::Instance => "instance"@,
        OptionView::Critical => "critical"@,
        OptionView::AutoBump(_) => "auto_bump"@,
        OptionView::NoBump => "no_bump"@,
        OptionView::Policy(_) => "policy"@,
        OptionView::Unknown(n) => n,
    }
}

/// A `#[storage(...)]` list that the macro reads without an unknown option
/// gives the linter the option keywords, in order.
proof fn lemma_keywords_of_options(ts: Seq<Token>, i: int, b: int)
    requires
        option_list(ts, i, b) is Some,
        forall|k: int|
            0 <= k < option_list(ts, i, b)->Some_0.len() ==> !(#[trigger] option_list(ts, i, b)->Some_0[k] is Unknown),
    ensures
        keyword_list(ts, i, b) == Some(option_list(ts, i, b)->Some_0.map_values(|o: OptionView| option_name(o))),
    decreases b - i,
{
    let ol = option_list(ts, i, b)->Some_0;
    reveal_strlit("persistent");
    reveal_strlit("temporary");
    reveal_strlit("instance");
    reveal_strlit("critical");
    reveal_strlit("no_bump");
    reveal_strlit("auto_bump");
    reveal_strlit("policy");
    if i < b && ident_at(ts, i) {
        let n = ts[i].kind->Ident_0@;
        if !known_option(n) {
            assert(ol[0] is Unknown);
        }
        let (o, j) = option_at(ts, i, b)->Some_0;
        assert(option_name(o) == n);
        if i + 1 < b && punct_at(ts, i + 1, '=') {
            if n == "auto_bump"@ {
                assert(j == i + 3);
                assert(expr_end(ts, i + 3, b, 0) == Some(i + 3));
                assert(expr_end(ts, i + 2, b, 0) == Some(i + 3));
            }
        }
        if j < b && punct_at(ts, j, ',') {
            let rest = option_list(ts, j + 1, b)->Some_0;
            assert(ol == seq![o] + rest);
            assert forall|k: int| 0 <= k < rest.len() implies !(#[trigger] rest[k] is Unknown) by {
                assert(rest[k] == ol[k + 1]);
            }
            lemma_keywords_of_options(ts, j + 1, b);
            assert(ol.map_values(|x: OptionView| option_name(x)) =~= seq![n] + rest.map_values(
                |x: OptionView| option_name(x),
            ));
        } else {
            assert(ol == seq![o]);
            assert(ol.map_values(|x: OptionView| option_name(x)) =~= seq![n]);
        }
    } else {
        assert(ol.map_values(|x: OptionView| option_name(x)) =~= Seq::<Seq<char>>::empty());
    }
}


/// The linter's name for a lifecycle.
pub open spec fn lint_lifecycle(l: Lifecycle) -> crate::lints::parse::Lifecycle {
    match l {
        Lifecycle::Temporary => crate::lints::parse::Lifecycle::Temporary,
        Lifecycle::Persistent => crate::lints::parse::Lifecycle::Persistent,
        Lifecycle::Instance => crate::lints::parse::Lifecycle::Instance,
    }
}

pub open spec fn lint_lifecycle_opt(l: Option<Lifecycle>) -> Option<crate::lints::parse::Lifecycle> {
    match l {
        Some(x) => Some(lint_lifecycle(x)),
        None => None,
    }
}

pub open spec fn option_names(os: Seq<StorageOption>) -> Seq<Seq<char>> {
    os.map_values(|o: StorageOption| option_name(option_view(o)))
}

proof fn lemma_option_words()
    ensures
        spec_lifecycle_from_word("persistent"@) == Some(crate::lints::parse::Lifecycle::Persistent),
        spec_lifecycle_from_word("temporary"@) == Some(crate::lints::parse::Lifecycle::Temporary),
        spec_lifecycle_from_word("instance"@) == Some(crate::lints::parse::Lifecycle::Instance),
        spec_lifecycle_from_word("critical"@) is None,
        spec_lifecycle_from_word("auto_bump"@) is None,
        spec_lifecycle_from_word("no_bump"@) is None,
        spec_lifecycle_from_word("policy"@) is None,
        "critical"@ != "persistent"@ && "critical"@ != "temporary"@ && "critical"@ != "instance"@,
        "critical"@ != "auto_bump"@ && "critical"@ != "no_bump"@ && "critical"@ != "policy"@,
{
    reveal_strlit("persistent");
    reveal_strlit("temporary");
    reveal_strlit("instance");
    reveal_strlit("critical");
    reveal_strlit("no_bump");
    reveal_strlit("auto_bump");
    reveal_strlit("policy");
    assert("temporary"@[0] == 't' && "persistent"@[0] == 'p' && "instance"@[0] == 'i');
    assert("persistent"@ != "temporary"@);
    assert("instance"@ != "temporary"@ && "instance"@ != "persistent"@);
    assert("critical"@[0] == 'c' && "auto_bump"@[0] == 'a' && "no_bump"@[0] == 'n');
    assert("policy"@.len() == 6 && "persistent"@.len() == 10 && "critical"@.len() == 8);
}

/// The keywords of options that parse name the lifecycle they set last, and
/// `critical` exactly when they mark the entry critical; none is unknown.
proof fn lemma_option_keywords_agree(os: Seq<StorageOption>)
    requires
        parsed_opts(os) is Ok,
    ensures
        forall|k: int| 0 <= k < os.len() ==> !(#[trigger] os[k] is Unknown),
        attr_lifecycle(option_names(os)) == lint_lifecycle_opt(parsed_opts(os)->Ok_0.lifecycle),
        option_names(os).contains("critical"@) == parsed_opts(os)->Ok_0.critical,
    decreases os.len(),
{
    reveal_strlit("persistent");
    reveal_strlit("temporary");
    reveal_strlit("instance");
    reveal_strlit("critical");
    reveal_strlit("no_bump");
    reveal_strlit("auto_bump");
    reveal_strlit("policy");
    if os.len() == 0 {
        assert(option_names(os) =~= Seq::<Seq<char>>::empty());
    } else {
        let prev = os.drop_last();
        lemma_option_keywords_agree(prev);
        let last = os.last();
        let names = option_names(os);
        assert(names =~= option_names(prev).push(option_name(option_view(last))));
        assert(names.drop_last() =~= option_names(prev));
        assert forall|k: int| 0 <= k < os.len() implies !(#[trigger] os[k] is Unknown) by {
            if k < os.len() - 1 {
                assert(os[k] == prev[k]);
            }
        }
        if names.contains("critical"@) {
            let k = choose|k: int| 0 <= k < names.len() && names[k] == "critical"@;
            if k < names.len() - 1 {
                assert(option_names(prev)[k] == "critical"@);
            }
        }
        if option_names(prev).contains("critical"@) {
            let k = choose|k: int| 0 <= k < option_names(prev).len() && option_names(prev)[k] == "critical"@;
            assert(names[k] == "critical"@);
        }
        if option_name(option_view(last)) == "critical"@ {
            assert(names[names.len() - 1] == "critical"@);
        }
        let p = parsed_opts(prev)->Ok_0;
        assert(parsed_opts(os) == apply_option(p, last));
        assert(names.last() == option_name(option_view(last)));
        lemma_option_words();
        assert((option_name(option_view(last)) == "critical"@) == (last is Critical));
        assert(names.contains("critical"@) == (option_names(prev).contains("critical"@) || last is Critical));
    }
}


proof fn lemma_decl_critical_push(l: Seq<Option<Seq<Seq<char>>>>, x: Option<Seq<Seq<char>>>)
    ensures
        decl_critical(l.push(x)) == (decl_critical(l) || (x is Some && x->0.contains("critical"@))),
{
    let lx = l.push(x);
    if decl_critical(l) {
        let i = choose|i: int| 0 <= i < l.len() && (#[trigger] l[i]) is Some && l[i]->0.contains("critical"@);
        assert(lx[i] == l[i]);
    }
    if x is Some && x->0.contains("critical"@) {
        assert(lx[l.len() as int] == x);
    }
    if decl_critical(lx) {
        let i = choose|i: int| 0 <= i < lx.len() && (#[trigger] lx[i]) is Some && lx[i]->0.contains("critical"@);
        if i < l.len() {
            assert(l[i] == lx[i]);
        }
    }
}

/// Over attributes that the macro reads and merges, the linter reads the
/// lifecycle and the `critical` mark that the merge gives.
proof fn lemma_attrs_agree(ts: Seq<Token>, rs: Seq<(int, int)>, attrs: Seq<EntryAttr>)
    requires
        entry_attrs(ts, rs) == Some(attrs.map_values(|a: EntryAttr| attr_view(a))),
        merged_opts(attrs) is Ok,
    ensures
        decl_lifecycle(storage_attr_lists(ts, rs)) == lint_lifecycle_opt(merged_opts(attrs)->Ok_0.lifecycle),
        decl_critical(storage_attr_lists(ts, rs)) == merged_opts(attrs)->Ok_0.critical,
    decreases rs.len(),
{
    let views = attrs.map_values(|a: EntryAttr| attr_view(a));
    if rs.len() == 0 {
        assert(views.len() == 0);
        assert(attrs.len() == 0);
        assert(storage_attr_lists(ts, rs) =~= Seq::<Option<Seq<Seq<char>>>>::empty());
    } else {
        let rp = rs.drop_last();
        let ap = attrs.drop_last();
        assert(views.len() == attrs.len());
        assert(views.drop_last() =~= ap.map_values(|a: EntryAttr| attr_view(a)));
        assert(entry_attrs(ts, rp) is Some && entry_attr(ts, rs.last().0, rs.last().1) is Some);
        let rest = entry_attrs(ts, rp)->Some_0;
        assert(rest.push(entry_attr(ts, rs.last().0, rs.last().1)->Some_0) == views);
        assert(rest =~= views.drop_last());
        lemma_attrs_agree(ts, rp, ap);
        let (st, tt) = rs.last();
        let a = attrs.last();
        assert(views.last() == attr_view(a));
        let lp = storage_attr_lists(ts, rp);
        let m = merged_opts(ap)->Ok_0;
        if ident_is(ts, st, "storage"@) && path_end(ts, st + 1, tt) == st + 1 {
            let ol = option_list(ts, st + 2, tt - 1)->Some_0;
            assert(entry_attr(ts, st, tt) == Some(AttrView::Storage(ol)));
            let os = a->Storage_0;
            assert(os@.map_values(|o: StorageOption| option_view(o)) == ol);
            let p = parsed_opts(os@)->Ok_0;
            lemma_option_keywords_agree(os@);
            assert forall|k: int| 0 <= k < ol.len() implies !(#[trigger] ol[k] is Unknown) by {
                assert(ol[k] == option_view(os@[k]));
            }
            lemma_keywords_of_options(ts, st + 2, tt - 1);
            assert(ol.map_values(|o: OptionView| option_name(o)) =~= option_names(os@));
            let kws = option_names(os@);
            assert(storage_attr_words(ts, st, tt) == Some(Some(kws)));
            assert(storage_attr_lists(ts, rs) == lp.push(Some(kws)));
            assert(lp.push(Some(kws)).drop_last() =~= lp);
            lemma_decl_critical_push(lp, Some(kws));
        } else {
            assert(storage_attr_lists(ts, rs) == lp);
        }
    }
}

/// For every entry that `storage!` accepts, the linter reads the lifecycle
/// and the `critical` mark that the macro binds: the last lifecycle given,
/// and `critical` when any attribute says so.
pub proof fn lemma_linter_reads_what_the_macro_binds(ts: Seq<Token>, sh: EntryShape, e: StorageEntry, d: StorageDecl)
    requires
        entry_matches(e, ts, sh),
        decl_matches(d, ts, sh),
        resolved_entry(e.attrs@) is Ok,
    ensures
        d.lifecycle == lint_lifecycle(resolved_entry(e.attrs@)->Ok_0.lifecycle->Some_0),
        d.critical == resolved_entry(e.attrs@)->Ok_0.critical,
{
    lemma_attrs_agree(ts, sh.attrs, e.attrs@);
}

} // verus!
