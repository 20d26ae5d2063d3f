//! The storage-usage model of one source file, as the lint rules read it,
//! and the keyword rules used while building it.
//!
//! The model holds plain values: the file's `storage!` declarations, the raw
//! `env.storage().<lifecycle>().<method>(...)` chains of each function with
//! the shape of their arguments, the types that implement `Critical`, and
//! the field counts of its structs.

use vstd::prelude::*;
use crate::grammar::{
    EntryShape, Token, TokenKind, expr_end, find_expr_end, find_group_end, find_path_end, group_end,
    ident_at, ident_is, is_ident, is_punct, lemma_expr_end_bounds,
    lemma_body_entries_in_bounds, lemma_group_end_bounds, path_end, punct_at, ranges_view, shapes_view, storage_body,
    storage_entries, tokens_string, tokens_text,
};
use crate::text::{char_is_whitespace, chars_of, is_whitespace, push_char, str_eq};

verus! {

/// The three Soroban storage lifecycles (as written in source).
#[derive(Clone, Copy, Debug, PartialEq, Eq, Structural)]
pub enum Lifecycle {
    /// `env.storage().temporary()`.
    Temporary,
    /// `env.storage().persistent()`.
    Persistent,
    /// `env.storage().instance()`.
    Instance,
}

/// The method name of a lifecycle.
pub open spec fn lifecycle_word(l: Lifecycle) -> Seq<char> {
    match l {
        Lifecycle::Temporary => "temporary"@,
        Lifecycle::Persistent => "persistent"@,
        Lifecycle::Instance => "instance"@,
    }
}

/// The lifecycle a method name selects, if any.
pub open spec fn spec_lifecycle_from_word(s: Seq<char>) -> Option<Lifecycle> {
    if s == "temporary"@ {
        Some(Lifecycle::Temporary)
    } else if s == "persistent"@ {
        Some(Lifecycle::Persistent)
    } else if s == "instance"@ {
        Some(Lifecycle::Instance)
    } else {
        None
    }
}

impl Lifecycle {
    /// The method name of this lifecycle (`temporary`, `persistent`,
    /// `instance`).
    pub fn as_str(&self) -> (r: &'static str)
        ensures
            r@ == lifecycle_word(*self),
    {
        match self {
            Lifecycle::Temporary => "temporary",
            Lifecycle::Persistent => "persistent",
            Lifecycle::Instance => "instance",
        }
    }

    /// The lifecycle a method name selects, if any.
    pub fn from_str(s: &str) -> (r: Option<Self>)
        ensures
            r == spec_lifecycle_from_word(s@),
    {
        if str_eq(s, "temporary") {
            Some(Lifecycle::Temporary)
        } else if str_eq(s, "persistent") {
            Some(Lifecycle::Persistent)
        } else if str_eq(s, "instance") {
            Some(Lifecycle::Instance)
        } else {
            None
        }
    }
}

/// Storage-chain terminal methods on `env.storage().<lifecycle>()`.
pub open spec fn terminal_methods() -> Seq<Seq<char>> {
    seq![
        "set"@,
        "get"@,
        "update"@,
        "try_update"@,
        "extend_ttl"@,
        "extend_ttl_with_limits"@,
        "bump"@,
        "remove"@,
        "has"@,
    ]
}

/// Methods (any receiver) that count as explicit TTL management.
pub open spec fn ttl_methods() -> Seq<Seq<char>> {
    seq!["extend_ttl"@, "extend_ttl_with_limits"@, "bump"@, "set_ttl"@]
}

fn str_in(items: &Vec<&str>, s: &str) -> (r: bool)
    ensures
        r == exists|i: int| 0 <= i < items.len() && #[trigger] items@[i]@ == s@,
{
    let mut i: usize = 0;
    while i < items.len()
        invariant
            i <= items.len(),
            forall|j: int| 0 <= j < i ==> #[trigger] items@[j]@ != s@,
        decreases items.len() - i,
    {
        if str_eq(items[i], s) {
            return true;
        }
        i = i + 1;
    }
    false
}

/// Whether a method name ends a storage chain the rules look at.
pub fn is_terminal_method(name: &str) -> (r: bool)
    ensures
        r == terminal_methods().contains(name@),
{
    let names: Vec<&str> = vec![
        "set",
        "get",
        "update",
        "try_update",
        "extend_ttl",
        "extend_ttl_with_limits",
        "bump",
        "remove",
        "has",
    ];
    assert(names@.map_values(|s: &str| s@) =~= terminal_methods());
    let r = str_in(&names, name);
    proof {
        if r {
            let i = choose|i: int| 0 <= i < names.len() && #[trigger] names@[i]@ == name@;
            assert(terminal_methods()[i] == name@);
        }
        if terminal_methods().contains(name@) {
            let i = choose|i: int| 0 <= i < terminal_methods().len() && terminal_methods()[i] == name@;
            assert(names@[i]@ == name@);
        }
    }
    r
}

/// Whether a method or function name is explicit TTL management.
pub fn is_ttl_method(name: &str) -> (r: bool)
    ensures
        r == ttl_methods().contains(name@),
{
    let names: Vec<&str> = vec!["extend_ttl", "extend_ttl_with_limits", "bump", "set_ttl"];
    assert(names@.map_values(|s: &str| s@) =~= ttl_methods());
    let r = str_in(&names, name);
    proof {
        if r {
            let i = choose|i: int| 0 <= i < names.len() && #[trigger] names@[i]@ == name@;
            assert(ttl_methods()[i] == name@);
        }
        if ttl_methods().contains(name@) {
            let i = choose|i: int| 0 <= i < ttl_methods().len() && ttl_methods()[i] == name@;
            assert(names@[i]@ == name@);
        }
    }
    r
}

/// `s` with every whitespace character removed.
pub open spec fn without_whitespace(s: Seq<char>) -> Seq<char>
    decreases s.len(),
{
    if s.len() == 0 {
        seq![]
    } else if char_is_whitespace(s.last()) {
        without_whitespace(s.drop_last())
    } else {
        without_whitespace(s.drop_last()).push(s.last())
    }
}

/// Strips whitespace for stable matching of type spellings.
pub fn normalize(s: &str) -> (r: String)
    ensures
        r@ == without_whitespace(s@),
{
    let cs = chars_of(s);
    let mut out = String::new();
    let mut i: usize = 0;
    while i < cs.len()
        invariant
            cs@ == s@,
            i <= cs.len(),
            out@ == without_whitespace(cs@.take(i as int)),
        decreases cs.len() - i,
    {
        assert(cs@.take(i + 1).drop_last() =~= cs@.take(i as int));
        if !is_whitespace(cs[i]) {
            push_char(&mut out, cs[i]);
        }
        i = i + 1;
    }
    assert(cs@.take(cs.len() as int) =~= cs@);
    out
}

/// The first lifecycle named along a receiver chain.
pub open spec fn first_lifecycle(names: Seq<Seq<char>>) -> Option<Lifecycle>
    decreases names.len(),
{
    if names.len() == 0 {
        None
    } else if spec_lifecycle_from_word(names[0]) is Some {
        spec_lifecycle_from_word(names[0])
    } else {
        first_lifecycle(names.drop_first())
    }
}

/// The lifecycle of a storage chain, from the method names along its
/// receiver (innermost last): the first lifecycle named, provided the chain
/// goes through `storage()`.
pub open spec fn spec_chain_lifecycle(names: Seq<Seq<char>>) -> Option<Lifecycle> {
    if names.contains("storage"@) {
        first_lifecycle(names)
    } else {
        None
    }
}

fn first_named_lifecycle(names: &Vec<String>) -> (r: Option<Lifecycle>)
    ensures
        r == first_lifecycle(names@.map_values(|n: String| n@)),
{
    let ghost views = names@.map_values(|n: String| n@);
    let mut i: usize = 0;
    assert(views.skip(0) =~= views);
    while i < names.len()
        invariant
            i <= names.len(),
            views == names@.map_values(|n: String| n@),
            first_lifecycle(views) == first_lifecycle(views.skip(i as int)),
        decreases names.len() - i,
    {
        assert(views.skip(i as int).drop_first() =~= views.skip(i + 1));
        assert(views.skip(i as int)[0] == names@[i as int]@);
        let l = Lifecycle::from_str(names[i].as_str());
        if l.is_some() {
            return l;
        }
        i = i + 1;
    }
    assert(views.skip(i as int).len() == 0);
    None
}

/// The lifecycle of a storage chain from the method names along its receiver,
/// e.g. `env.storage().persistent()` gives `["persistent", "storage"]`. Only
/// chains through `storage()` count, so unrelated `.temporary()` methods are
/// not taken for storage.
pub fn chain_lifecycle(names: &Vec<String>) -> (r: Option<Lifecycle>)
    ensures
        r == spec_chain_lifecycle(names@.map_values(|n: String| n@)),
{
    let ghost views = names@.map_values(|n: String| n@);
    let found = first_named_lifecycle(names);
    if found.is_none() {
        return None;
    }
    let mut j: usize = 0;
    while j < names.len()
        invariant
            j <= names.len(),
            views == names@.map_values(|n: String| n@),
            found == first_lifecycle(views),
            forall|k: int| 0 <= k < j ==> views[k] != "storage"@,
        decreases names.len() - j,
    {
        if str_eq(names[j].as_str(), "storage") {
            assert(views[j as int] == "storage"@);
            return found;
        }
        j = j + 1;
    }
    None
}

/// An entry declared inside a `storage!` macro invocation.
#[derive(Debug)]
pub struct StorageDecl {
    /// The declared lifecycle (`Persistent` when none is given).
    pub lifecycle: Lifecycle,
    /// The entry (variant) name.
    pub variant: String,
    /// Whether the entry is declared `critical`.
    pub critical: bool,
    /// The value type, whitespace-normalized.
    pub value_type: String,
    /// Line of the entry name.
    pub line: usize,
    /// Column of the entry name.
    pub column: usize,
}

/// The last lifecycle keyword of one `#[storage(...)]` attribute.
pub open spec fn attr_lifecycle(kws: Seq<Seq<char>>) -> Option<Lifecycle>
    decreases kws.len(),
{
    if kws.len() == 0 {
        None
    } else if spec_lifecycle_from_word(kws.last()) is Some {
        spec_lifecycle_from_word(kws.last())
    } else {
        attr_lifecycle(kws.drop_last())
    }
}

/// The lifecycle declared by a list of `#[storage(...)]` attributes: the
/// last attribute that names one decides, as in `storage!` itself;
/// unparsable attributes (`None`) are skipped.
pub open spec fn decl_lifecycle(attrs: Seq<Option<Seq<Seq<char>>>>) -> Option<Lifecycle>
    decreases attrs.len(),
{
    if attrs.len() == 0 {
        None
    } else {
        let here = match attrs.last() {
            Some(kws) => attr_lifecycle(kws),
            None => None,
        };
        if here is Some {
            here
        } else {
            decl_lifecycle(attrs.drop_last())
        }
    }
}

/// Whether any parsed `#[storage(...)]` attribute says `critical`.
pub open spec fn decl_critical(attrs: Seq<Option<Seq<Seq<char>>>>) -> bool {
    exists|i: int|
        0 <= i < attrs.len() && (#[trigger] attrs[i]) is Some && attrs[i]->0.contains(
            "critical"@,
        )
}

/// The views of parsed attribute keyword lists.
pub open spec fn attrs_view(attrs: Seq<Option<Vec<String>>>) -> Seq<Option<Seq<Seq<char>>>> {
    attrs.map_values(
        |a: Option<Vec<String>>|
            match a {
                Some(v) => Some(v@.map_values(|k: String| k@)),
                None => None,
            },
    )
}

fn keywords_lifecycle_and_critical(kws: &Vec<String>) -> (r: (Option<Lifecycle>, bool))
    ensures
        r.0 == attr_lifecycle(kws@.map_values(|k: String| k@)),
        r.1 == kws@.map_values(|k: String| k@).contains("critical"@),
{
    let ghost views = kws@.map_values(|k: String| k@);
    let mut lc: Option<Lifecycle> = None;
    let mut cr = false;
    let mut i: usize = 0;
    while i < kws.len()
        invariant
            i <= kws.len(),
            views == kws@.map_values(|k: String| k@),
            lc == attr_lifecycle(views.take(i as int)),
            cr == views.take(i as int).contains("critical"@),
        decreases kws.len() - i,
    {
        assert(views.take(i + 1).drop_last() =~= views.take(i as int));
        assert(views.take(i + 1).last() == kws@[i as int]@);
        let here = Lifecycle::from_str(kws[i].as_str());
        if here.is_some() {
            lc = here;
        }
        let is_critical = str_eq(kws[i].as_str(), "critical");
        proof {
            let prev = views.take(i as int);
            let next = views.take(i + 1);
            assert(next =~= prev.push(kws@[i as int]@));
            if cr {
                let k = choose|k: int| 0 <= k < prev.len() && prev[k] == "critical"@;
                assert(next[k] == "critical"@);
            }
            if is_critical {
                assert(next[i as int] == "critical"@);
            }
            if next.contains("critical"@) {
                let k = choose|k: int| 0 <= k < next.len() && next[k] == "critical"@;
                if k < i {
                    assert(prev[k] == "critical"@);
                }
            }
        }
        if is_critical {
            cr = true;
        }
        i = i + 1;
    }
    assert(views.take(kws.len() as int) =~= views);
    (lc, cr)
}

impl StorageDecl {
    /// Builds a declaration from its entry name, value type, position and the
    /// keywords of each `#[storage(...)]` attribute (`None` for one that did
    /// not parse as a keyword list). The last attribute naming a lifecycle
    /// decides it (`Persistent` when none does); `critical` in any attribute
    /// marks the entry critical.
    pub fn from_attrs(
        variant: String,
        value_type: String,
        storage_attrs: &Vec<Option<Vec<String>>>,
        line: usize,
        column: usize,
    ) -> (r: StorageDecl)
        ensures
            r.lifecycle == match decl_lifecycle(attrs_view(storage_attrs@)) {
                Some(l) => l,
                None => Lifecycle::Persistent,
            },
            r.critical == decl_critical(attrs_view(storage_attrs@)),
            r.variant == variant,
            r.value_type == value_type,
            r.line == line,
            r.column == column,
    {
        let ghost views = attrs_view(storage_attrs@);
        let mut lifecycle: Option<Lifecycle> = None;
        let mut critical = false;
        let mut i: usize = 0;
        while i < storage_attrs.len()
            invariant
                i <= storage_attrs.len(),
                views == attrs_view(storage_attrs@),
                lifecycle == decl_lifecycle(views.take(i as int)),
                critical == exists|k: int|
                    0 <= k < i && (#[trigger] views[k]) is Some && views[k]->0.contains(
                        "critical"@,
                    ),
            decreases storage_attrs.len() - i,
        {
            assert(views.take(i + 1).drop_last() =~= views.take(i as int));
            assert(views.take(i + 1).last() == views[i as int]);
            match &storage_attrs[i] {
                Some(kws) => {
                    let (lc, cr) = keywords_lifecycle_and_critical(kws);
                    if lc.is_some() {
                        lifecycle = lc;
                    }
                    if cr {
                        critical = true;
                    }
                },
                None => {},
            }
            i = i + 1;
        }
        assert(views.take(i as int) =~= views);
        let lifecycle = match lifecycle {
            Some(l) => l,
            None => Lifecycle::Persistent,
        };
        StorageDecl { lifecycle, variant, critical, value_type, line, column }
    }
}

/// The shape of a call argument, as far as the rules read it.
#[derive(Debug)]
pub enum ArgExpr {
    /// `&expr`.
    Reference(Box<ArgExpr>),
    /// `callee(...)`, holding the callee expression.
    Call(Box<ArgExpr>),
    /// A path, holding its last segment (`StorageKey::Balance` gives
    /// `Balance`).
    Path(String),
    /// A field access `base.member`, holding the member.
    Field(String),
    /// A method call `receiver.method(...)`, holding the method name.
    MethodCall(String),
    /// A closure, holding the normalized type of each parameter that has
    /// one (`None` for an untyped parameter).
    Closure(Vec<Option<String>>),
    /// An integer literal, holding its base-10 digits.
    IntLit(String),
    /// Anything else.
    Other,
}

/// A raw `env.storage().<lifecycle>().<method>(...)` call chain.
#[derive(Debug)]
pub struct StorageChain {
    /// The lifecycle the chain goes through.
    pub lifecycle: Lifecycle,
    /// The terminal method.
    pub method: String,
    /// The arguments of the terminal method.
    pub args: Vec<ArgExpr>,
    /// Line of the call.
    pub line: usize,
    /// Column of the call.
    pub column: usize,
    /// Whether the call sits inside a `for`, `while` or `loop`.
    pub inside_loop: bool,
}

/// Storage activity of a single function body.
#[derive(Debug)]
pub struct FnStorage {
    /// The storage chains, in source order.
    pub chains: Vec<StorageChain>,
    /// Whether the function contains any explicit TTL-management call.
    pub has_ttl_call: bool,
    /// Parameter bindings `(name, type)` of this function, in declaration
    /// order; a later binding of the same name shadows an earlier one.
    pub bindings: Vec<(String, String)>,
    /// The `Self` type when the function lives in an `impl` block.
    pub self_type: Option<String>,
}

/// The full storage model of one source file.
#[derive(Debug)]
pub struct FileModel {
    /// Entries declared via `storage!`.
    pub decls: Vec<StorageDecl>,
    /// Storage chains grouped by the function they appear in.
    pub fns: Vec<FnStorage>,
    /// Type names that implement `Critical` in this file.
    pub critical_types: Vec<String>,
    /// `(struct name, number of fields)`, in source order; a later struct of
    /// the same name shadows an earlier one.
    pub struct_field_counts: Vec<(String, usize)>,
    /// `(struct name, [(field name, field type)])`, in source order.
    pub struct_field_types: Vec<(String, Vec<(String, String)>)>,
    /// All parameter bindings of the file, in source order.
    pub bindings: Vec<(String, String)>,
}

impl FileModel {
    /// A model with nothing in it.
    pub fn new() -> (r: FileModel)
        ensures
            r.decls@.len() == 0,
            r.fns@.len() == 0,
            r.critical_types@.len() == 0,
            r.struct_field_counts@.len() == 0,
            r.struct_field_types@.len() == 0,
            r.bindings@.len() == 0,
    {
        FileModel {
            decls: Vec::new(),
            fns: Vec::new(),
            critical_types: Vec::new(),
            struct_field_counts: Vec::new(),
            struct_field_types: Vec::new(),
            bindings: Vec::new(),
        }
    }
}


/// Whether one of a type's `#[derive(...)]` lists names `Critical` (by the
/// last segment of a path, so `soroban_storage::Critical` counts too).
pub fn derives_critical(derive_lists: &Vec<Vec<String>>) -> (r: bool)
    ensures
        r == (exists|i: int, j: int|
            0 <= i < derive_lists.len() && 0 <= j < derive_lists@[i].len()
                && #[trigger] derive_lists@[i]@[j]@ == "Critical"@),
{
    let mut i: usize = 0;
    while i < derive_lists.len()
        invariant
            i <= derive_lists.len(),
            forall|a: int, b: int|
                0 <= a < i && 0 <= b < derive_lists@[a].len() ==> #[trigger] derive_lists@[a]@[b]@
                    != "Critical"@,
        decreases derive_lists.len() - i,
    {
        let list = &derive_lists[i];
        let mut j: usize = 0;
        while j < list.len()
            invariant
                i < derive_lists.len(),
                list == derive_lists@[i as int],
                j <= list.len(),
                forall|a: int, b: int|
                    0 <= a < i && 0 <= b < derive_lists@[a].len() ==> #[trigger] derive_lists@[a]@[b]@
                        != "Critical"@,
                forall|b: int| 0 <= b < j ==> #[trigger] list@[b]@ != "Critical"@,
            decreases list.len() - j,
        {
            if str_eq(list[j].as_str(), "Critical") {
                return true;
            }
            j = j + 1;
        }
        i = i + 1;
    }
    false
}


/// The keywords of a `#[storage(...)]` list whose contents run from `i` to
/// `b`: identifiers separated by commas, each possibly followed by `=` and a
/// value (`policy = ...`, `auto_bump = false`), which is passed over; `None`
/// when anything else is there.
pub open spec fn keyword_list(ts: Seq<Token>, i: int, b: int) -> Option<Seq<Seq<char>>>
    decreases b - i,
{
    let here = i < b && ident_at(ts, i);
    let w: Seq<Seq<char>> = if here {
        seq![ts[i].kind->Ident_0@]
    } else {
        seq![]
    };
    let j = if !here {
        i
    } else if i + 1 < b && punct_at(ts, i + 1, '=') {
        match expr_end(ts, i + 2, b, 0) {
            Some(e) => if i + 2 < e {
                e
            } else {
                -1
            },
            None => -1,
        }
    } else {
        i + 1
    };
    if j < i {
        None
    } else if j < b && punct_at(ts, j, ',') {
        match keyword_list(ts, j + 1, b) {
            Some(rest) => Some(w + rest),
            None => None,
        }
    } else if j == b {
        Some(w)
    } else {
        None
    }
}

/// What the attribute with contents `s..t` says to the lint: nothing
/// (outer `None`) unless its path is `storage`; then its keywords, or
/// `None` when it is not a keyword list.
pub open spec fn storage_attr_words(ts: Seq<Token>, s: int, t: int) -> Option<Option<Seq<Seq<char>>>> {
    if ident_is(ts, s, "storage"@) && path_end(ts, s + 1, t) == s + 1 {
        if s + 1 < t && ts[s + 1].kind is Open && group_end(ts, s + 2, 1) == Some(t) {
            Some(keyword_list(ts, s + 2, t - 1))
        } else {
            Some(None)
        }
    } else {
        None
    }
}

/// The `#[storage(...)]` attributes among `attrs`, in order.
pub open spec fn storage_attr_lists(ts: Seq<Token>, attrs: Seq<(int, int)>) -> Seq<Option<Seq<Seq<char>>>>
    decreases attrs.len(),
{
    if attrs.len() == 0 {
        seq![]
    } else {
        let rest = storage_attr_lists(ts, attrs.drop_last());
        match storage_attr_words(ts, attrs.last().0, attrs.last().1) {
            Some(w) => rest.push(w),
            None => rest,
        }
    }
}

/// The declaration the lint reads from an entry of a `storage!` body.
pub open spec fn decl_matches(d: StorageDecl, ts: Seq<Token>, e: EntryShape) -> bool {
    let lists = storage_attr_lists(ts, e.attrs);
    &&& 0 <= e.name < ts.len()
    &&& d.variant@ == ts[e.name].kind->Ident_0@
    &&& d.value_type@ == without_whitespace(tokens_text(ts, e.value.0, e.value.1))
    &&& d.lifecycle == match decl_lifecycle(lists) {
        Some(l) => l,
        None => Lifecycle::Persistent,
    }
    &&& d.critical == decl_critical(lists)
    &&& d.line == ts[e.name].line
    &&& d.column == ts[e.name].column
}

fn read_keywords(ts: &Vec<Token>, i: usize, b: usize) -> (r: Option<Vec<String>>)
    requires
        i <= b <= ts.len(),
    ensures
        r matches Some(v) ==> keyword_list(ts@, i as int, b as int) == Some(v@.map_values(|k: String| k@)),
        r is None ==> keyword_list(ts@, i as int, b as int) is None,
    decreases b - i,
{
    let mut w: Vec<String> = Vec::new();
    let mut j = i;
    if i < b && is_ident(ts, i) {
        match &ts[i].kind {
            TokenKind::Ident(name) => {
                w.push(name.clone());
            },
            _ => {},
        }
        if i + 1 < b && is_punct(ts, i + 1, '=') {
            proof {
                lemma_expr_end_bounds(ts@, i + 2, b as int, 0);
            }
            match find_expr_end(ts, i + 2, b, 0) {
                Some(e) => {
                    if i + 2 < e {
                        j = e;
                    } else {
                        return None;
                    }
                },
                None => {
                    return None;
                },
            }
        } else {
            j = i + 1;
        }
    }
    proof {
        if i < b && ident_at(ts@, i as int) {
            assert(w@.map_values(|k: String| k@) =~= seq![ts@[i as int].kind->Ident_0@]);
        } else {
            assert(w@.map_values(|k: String| k@) =~= Seq::<Seq<char>>::empty());
        }
    }
    if j < b && is_punct(ts, j, ',') {
        match read_keywords(ts, j + 1, b) {
            Some(rest) => {
                let ghost wv = w@.map_values(|k: String| k@);
                let ghost rv = rest@.map_values(|k: String| k@);
                let mut out = w;
                let mut k: usize = 0;
                while k < rest.len()
                    invariant
                        k <= rest.len(),
                        rv == rest@.map_values(|x: String| x@),
                        out@.map_values(|x: String| x@) == wv + rv.take(k as int),
                    decreases rest.len() - k,
                {
                    let ghost before = out@.map_values(|x: String| x@);
                    out.push(rest[k].clone());
                    proof {
                        assert(out@.map_values(|x: String| x@) =~= before.push(rv[k as int]));
                        assert(rv.take(k + 1) =~= rv.take(k as int).push(rv[k as int]));
                    }
                    k = k + 1;
                }
                assert(rv.take(rest.len() as int) =~= rv);
                Some(out)
            },
            None => None,
        }
    } else if j == b {
        Some(w)
    } else {
        None
    }
}

fn storage_attr_keywords(ts: &Vec<Token>, s: usize, t: usize) -> (r: Option<Option<Vec<String>>>)
    requires
        s <= t <= ts.len(),
    ensures
        match storage_attr_words(ts@, s as int, t as int) {
            None => r is None,
            Some(None) => r == Some(None::<Vec<String>>),
            Some(Some(w)) => r matches Some(Some(v)) && v@.map_values(|k: String| k@) == w,
        },
{
    let is_storage = s < ts.len() && match &ts[s].kind {
        TokenKind::Ident(n) => str_eq(n.as_str(), "storage"),
        _ => false,
    };
    proof {
        reveal_strlit("storage");
    }
    if !is_storage {
        return None;
    }
    if s + 1 <= t && find_path_end(ts, s + 1, t) != s + 1 {
        return None;
    }
    proof {
        if s + 1 < t {
            lemma_group_end_bounds(ts@, s + 2, 1);
        }
    }
    if s + 1 < t && match &ts[s + 1].kind {
        TokenKind::Open(_) => true,
        _ => false,
    } {
        match find_group_end(ts, s + 2, 1) {
            Some(e) => {
                if e == t {
                    return Some(read_keywords(ts, s + 2, t - 1));
                }
            },
            None => {},
        }
    }
    Some(None)
}

fn storage_attr_keyword_lists(ts: &Vec<Token>, attrs: &Vec<(usize, usize)>) -> (r: Vec<Option<Vec<String>>>)
    requires
        forall|k: int| 0 <= k < attrs.len() ==> #[trigger] attrs@[k].0 <= attrs@[k].1 <= ts.len(),
    ensures
        attrs_view(r@) == storage_attr_lists(ts@, ranges_view(attrs@)),
{
    let mut out: Vec<Option<Vec<String>>> = Vec::new();
    let mut k: usize = 0;
    while k < attrs.len()
        invariant
            k <= attrs.len(),
            forall|m: int| 0 <= m < attrs.len() ==> #[trigger] attrs@[m].0 <= attrs@[m].1 <= ts.len(),
            attrs_view(out@) == storage_attr_lists(ts@, ranges_view(attrs@).take(k as int)),
        decreases attrs.len() - k,
    {
        let ghost rs = ranges_view(attrs@);
        proof {
            assert(rs.take(k + 1).drop_last() =~= rs.take(k as int));
            assert(rs.take(k + 1).last() == (attrs@[k as int].0 as int, attrs@[k as int].1 as int));
        }
        let (s, t) = attrs[k];
        let ghost before = attrs_view(out@);
        match storage_attr_keywords(ts, s, t) {
            Some(w) => {
                out.push(w);
                proof {
                    assert(attrs_view(out@) =~= before.push(attrs_view(out@).last()));
                }
            },
            None => {
                assert(attrs_view(out@) =~= before);
            },
        }
        k = k + 1;
    }
    assert(ranges_view(attrs@).take(attrs.len() as int) =~= ranges_view(attrs@));
    out
}

/// The declarations of a `storage!` body, as the lint reads them; `None`
/// when the body does not follow the `storage!` grammar.
pub fn parse_storage_body(tokens: &Vec<Token>) -> (r: Option<Vec<StorageDecl>>)
    ensures
        r is None <==> storage_body(tokens@) is None,
        r matches Some(ds) ==> (storage_body(tokens@) matches Some(es) && ds.len() == es.len()
            && forall|k: int| 0 <= k < ds.len() ==> decl_matches(#[trigger] ds@[k], tokens@, es[k])),
{
    let entries = match storage_entries(tokens) {
        Some(es) => es,
        None => {
            return None;
        },
    };
    let ghost shapes = shapes_view(entries@);
    let mut decls: Vec<StorageDecl> = Vec::new();
    let mut k: usize = 0;
    while k < entries.len()
        invariant
            k <= entries.len(),
            storage_body(tokens@) == Some(shapes),
            shapes == shapes_view(entries@),
            decls.len() == k,
            forall|m: int| 0 <= m < k ==> decl_matches(#[trigger] decls@[m], tokens@, shapes[m]),
        decreases entries.len() - k,
    {
        let e = &entries[k];
        proof {
            lemma_body_entries_in_bounds(tokens@, shapes, k as int);
            assert(shapes[k as int] == e.shape());
            assert forall|m: int| 0 <= m < e.attrs.len() implies #[trigger] e.attrs@[m].0 <= e.attrs@[m].1
                <= tokens.len() by {
                assert(ranges_view(e.attrs@)[m] == (e.attrs@[m].0 as int, e.attrs@[m].1 as int));
            }
        }
        let name = match &tokens[e.name].kind {
            TokenKind::Ident(n) => n.clone(),
            _ => String::new(),
        };
        let value_text = tokens_string(tokens, e.value.0, e.value.1);
        let value_type = normalize(value_text.as_str());
        let lists = storage_attr_keyword_lists(tokens, &e.attrs);
        let d = StorageDecl::from_attrs(name, value_type, &lists, tokens[e.name].line, tokens[e.name].column);
        decls.push(d);
        k = k + 1;
    }
    Some(decls)
}

} // verus!
