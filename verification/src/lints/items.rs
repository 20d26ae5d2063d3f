//! How the scan reads the items of a file: the `#[derive(...)]` lists of
//! structs and enums, `storage!` invocations, and the functions of `impl`
//! blocks and of the file; and the lint of a whole file from its items.

use vstd::prelude::*;
use crate::grammar::{Token, TokenKind, find_path_end, ident_at, is_ident, is_punct, path_end, punct_at, storage_body};
use crate::lints::parse::{StorageDecl, decl_matches, parse_storage_body};
use crate::lints::scan::{
    SourceFn, SourceItem, counts_view, items_bindings, items_critical, items_decls, items_field_counts,
    items_field_types, items_fns, pairs_view, scan_items, strings_view, types_view,
};
use crate::lints::walk::{AttrSyntax, FnSyntax, ItemSyntax, chains_view, fn_bindings, list_chains, list_has_ttl, scan_fn};
use crate::lints::parse::FileModel;
use crate::lints::{Finding, LintOptions, file_findings, lint_model};
use crate::text::str_eq;

verus! {

/// The end of a path that starts at `i`: an optional leading `::`, then
/// identifiers joined by `::`; `None` when no identifier starts it.
pub open spec fn path_from(ts: Seq<Token>, i: int, b: int) -> Option<int> {
    let start = if 0 <= i && i + 1 < b && i < ts.len() && ts[i].kind == TokenKind::Punct(':', true) && punct_at(
        ts,
        i + 1,
        ':',
    ) {
        i + 2
    } else {
        i
    };
    if start < b && ident_at(ts, start) {
        Some(path_end(ts, start + 1, b))
    } else {
        None
    }
}

/// The last segments of the paths of a `#[derive(...)]` list whose contents
/// run from `i` to `b`: paths separated by commas, a trailing comma
/// allowed; `None` when anything else is there.
pub open spec fn derive_list(ts: Seq<Token>, i: int, b: int) -> Option<Seq<Seq<char>>>
    decreases b - i,
{
    if i >= b {
        Some(seq![])
    } else {
        match path_from(ts, i, b) {
            Some(e) => if e <= i {
                None
            } else {
                let name = ts[e - 1].kind->Ident_0@;
                if e == b {
                    Some(seq![name])
                } else if e < b && punct_at(ts, e, ',') {
                    match derive_list(ts, e + 1, b) {
                        Some(rest) => Some(seq![name] + rest),
                        None => None,
                    }
                } else {
                    None
                }
            },
            None => None,
        }
    }
}

/// Whether an attribute's path is exactly `name`.
pub open spec fn path_is(a: AttrSyntax, name: Seq<char>) -> bool {
    a.path@.len() == 1 && a.path@[0]@ == name
}

/// The derive lists among attributes, in order: each `#[derive(...)]` whose
/// list reads as paths gives the last segments of its paths.
pub open spec fn derive_lists_of(attrs: Seq<AttrSyntax>) -> Seq<Seq<Seq<char>>>
    decreases attrs.len(),
{
    if attrs.len() == 0 {
        seq![]
    } else {
        let rest = derive_lists_of(attrs.drop_last());
        let a = attrs.last();
        if path_is(a, "derive"@) && a.list is Some {
            match derive_list(a.list->Some_0@, 0, a.list->Some_0@.len() as int) {
                Some(names) => rest.push(names),
                None => rest,
            }
        } else {
            rest
        }
    }
}

pub open spec fn derives_view(ds: Seq<Vec<String>>) -> Seq<Seq<Seq<char>>> {
    ds.map_values(|d: Vec<String>| strings_view(d@))
}

proof fn lemma_path_end_ident(ts: Seq<Token>, i: int, hi: int)
    requires
        ident_at(ts, i - 1),
    ensures
        ident_at(ts, path_end(ts, i, hi) - 1),
    decreases hi - i,
{
    if 0 <= i && i + 2 < hi && i < ts.len() && ts[i].kind == TokenKind::Punct(':', true) && punct_at(ts, i + 1, ':')
        && ident_at(ts, i + 2) {
        lemma_path_end_ident(ts, i + 3, hi);
    }
}

fn find_path_from(ts: &Vec<Token>, i: usize, b: usize) -> (r: Option<usize>)
    requires
        i <= b <= ts.len(),
    ensures
        r matches Some(e) ==> path_from(ts@, i as int, b as int) == Some(e as int) && e <= b,
        r is None ==> path_from(ts@, i as int, b as int) is None,
{
    let mut start = i;
    if i < b && b - i > 1 && is_punct(ts, i + 1, ':') {
        match &ts[i].kind {
            TokenKind::Punct(c, joint) => {
                if *c == ':' && *joint {
                    start = i + 2;
                }
            },
            _ => {},
        }
    }
    if start < b && is_ident(ts, start) {
        Some(find_path_end(ts, start + 1, b))
    } else {
        None
    }
}

fn read_derive_list(ts: &Vec<Token>, i: usize, b: usize) -> (r: Option<Vec<String>>)
    requires
        i <= b <= ts.len(),
    ensures
        r matches Some(v) ==> derive_list(ts@, i as int, b as int) == Some(strings_view(v@)),
        r is None ==> derive_list(ts@, i as int, b as int) is None,
    decreases b - i,
{
    if i >= b {
        let v: Vec<String> = Vec::new();
        assert(strings_view(v@) =~= Seq::<Seq<char>>::empty());
        return Some(v);
    }
    let e = match find_path_from(ts, i, b) {
        Some(e) => e,
        None => {
            return None;
        },
    };
    if e <= i {
        return None;
    }
    let name = match &ts[e - 1].kind {
        TokenKind::Ident(n) => n.clone(),
        _ => String::new(),
    };
    proof {
        let start = if i + 1 < b && ts@[i as int].kind == TokenKind::Punct(':', true) && punct_at(ts@, i + 1, ':') {
            i + 2
        } else {
            i as int
        };
        lemma_path_end_ident(ts@, start + 1, b as int);
    }
    if e == b {
        let mut v: Vec<String> = Vec::new();
        v.push(name);
        assert(strings_view(v@) =~= seq![v@[0]@]);
        return Some(v);
    }
    if e < b && is_punct(ts, e, ',') {
        match read_derive_list(ts, e + 1, b) {
            Some(rest) => {
                let ghost rv = strings_view(rest@);
                let mut rest = rest;
                let ghost n0 = name@;
                rest.insert(0, name);
                assert(strings_view(rest@) =~= seq![n0] + rv);
                Some(rest)
            },
            None => None,
        }
    } else {
        None
    }
}

/// The derive lists among an item's attributes.
pub fn derive_lists(attrs: &Vec<AttrSyntax>) -> (r: Vec<Vec<String>>)
    ensures
        derives_view(r@) == derive_lists_of(attrs@),
{
    let mut out: Vec<Vec<String>> = Vec::new();
    let mut k: usize = 0;
    while k < attrs.len()
        invariant
            k <= attrs.len(),
            derives_view(out@) == derive_lists_of(attrs@.take(k as int)),
        decreases attrs.len() - k,
    {
        proof {
            assert(attrs@.take(k + 1).drop_last() =~= attrs@.take(k as int));
            assert(attrs@.take(k + 1).last() == attrs@[k as int]);
            reveal_strlit("derive");
        }
        let a = &attrs[k];
        let is_derive = a.path.len() == 1 && str_eq(a.path[0].as_str(), "derive");
        if is_derive {
            match &a.list {
                Some(ts) => {
                    match read_derive_list(ts, 0, ts.len()) {
                        Some(names) => {
                            let ghost before = derives_view(out@);
                            let ghost nv = strings_view(names@);
                            out.push(names);
                            assert(derives_view(out@) =~= before.push(nv));
                        },
                        None => {},
                    }
                },
                None => {},
            }
        }
        k = k + 1;
    }
    assert(attrs@.take(attrs.len() as int) =~= attrs@);
    out
}

/// Whether `s` is what the walk makes of function `f`.
pub open spec fn fn_scanned(s: SourceFn, f: FnSyntax) -> bool {
    &&& pairs_view(s.bindings@) == fn_bindings(f)
    &&& chains_view(s.chains@) == list_chains(f.body@, false)
    &&& s.has_ttl_call == list_has_ttl(f.body@)
}

/// Whether `ds` is what the linter reads from the tokens of a `storage!`
/// invocation: nothing when they do not follow its grammar.
pub open spec fn storage_decls(ds: Seq<StorageDecl>, ts: Seq<Token>) -> bool {
    match storage_body(ts) {
        None => ds.len() == 0,
        Some(es) => ds.len() == es.len() && forall|k: int| 0 <= k < ds.len() ==> decl_matches(#[trigger] ds[k], ts, es[k]),
    }
}

/// Whether a macro invocation with this path is a `storage!` declaration:
/// its last segment is `storage`.
pub open spec fn is_storage_macro(path: Seq<String>) -> bool {
    path.len() > 0 && path.last()@ == "storage"@
}

/// Whether `r` is what the scan makes of item `it`.
pub open spec fn item_scanned(r: SourceItem, it: ItemSyntax) -> bool {
    match it {
        ItemSyntax::Struct { name, field_count, fields, attrs } => (r matches SourceItem::Struct {
            name: n,
            field_count: c,
            fields: f,
            derives: d,
        } && n == name && c == field_count && f == fields && derives_view(d@) == derive_lists_of(attrs@)),
        ItemSyntax::Enum { name, attrs } => (r matches SourceItem::Enum { name: n, derives: d } && n == name
            && derives_view(d@) == derive_lists_of(attrs@)),
        ItemSyntax::Impl { trait_name, self_path, self_type, fns } => (r matches SourceItem::Impl {
            trait_name: t,
            self_path: p,
            self_type: s,
            fns: g,
        } && t == trait_name && p == self_path && s == self_type && g.len() == fns.len() && forall|k: int|
            0 <= k < g.len() ==> fn_scanned(#[trigger] g@[k], fns@[k])),
        ItemSyntax::Macro { path, tokens } => if is_storage_macro(path@) {
            (r matches SourceItem::Storage { decls } && storage_decls(decls@, tokens@))
        } else {
            r is Other
        },
        ItemSyntax::Fn(f) => (r matches SourceItem::Fn(g) && fn_scanned(g, f)),
        ItemSyntax::Other => r is Other,
    }
}

fn scan_fns(fns: &Vec<FnSyntax>) -> (r: Vec<SourceFn>)
    ensures
        r.len() == fns.len(),
        forall|k: int| 0 <= k < r.len() ==> fn_scanned(#[trigger] r@[k], fns@[k]),
{
    let mut out: Vec<SourceFn> = Vec::new();
    let mut k: usize = 0;
    while k < fns.len()
        invariant
            k <= fns.len(),
            out.len() == k,
            forall|m: int| 0 <= m < k ==> fn_scanned(#[trigger] out@[m], fns@[m]),
        decreases fns.len() - k,
    {
        out.push(scan_fn(&fns[k]));
        k = k + 1;
    }
    out
}

/// What the scan makes of one item: the derive lists of a struct or enum,
/// the declarations of a `storage!` invocation (none when its body does not
/// follow the grammar), and the storage activity of each function.
pub fn item_source(it: ItemSyntax) -> (r: SourceItem)
    ensures
        item_scanned(r, it),
{
    match it {
        ItemSyntax::Struct { name, field_count, fields, attrs } => {
            let derives = derive_lists(&attrs);
            SourceItem::Struct { name, field_count, fields, derives }
        },
        ItemSyntax::Enum { name, attrs } => {
            let derives = derive_lists(&attrs);
            SourceItem::Enum { name, derives }
        },
        ItemSyntax::Impl { trait_name, self_path, self_type, fns } => {
            let scanned = scan_fns(&fns);
            SourceItem::Impl { trait_name, self_path, self_type, fns: scanned }
        },
        ItemSyntax::Macro { path, tokens } => {
            proof {
                reveal_strlit("storage");
            }
            let storage = path.len() > 0 && str_eq(path[path.len() - 1].as_str(), "storage");
            if storage {
                let decls = match parse_storage_body(&tokens) {
                    Some(ds) => ds,
                    None => Vec::new(),
                };
                SourceItem::Storage { decls }
            } else {
                SourceItem::Other
            }
        },
        ItemSyntax::Fn(f) => SourceItem::Fn(scan_fn(&f)),
        ItemSyntax::Other => SourceItem::Other,
    }
}

/// Whether `srcs` is what the scan makes of `its`, item by item.
pub open spec fn items_scanned(srcs: Seq<SourceItem>, its: Seq<ItemSyntax>) -> bool {
    srcs.len() == its.len() && forall|k: int| 0 <= k < srcs.len() ==> item_scanned(#[trigger] srcs[k], its[k])
}

/// What the scan makes of the items of a file, in order.
pub fn source_items(items: Vec<ItemSyntax>) -> (r: Vec<SourceItem>)
    ensures
        items_scanned(r@, items@),
{
    let ghost all = items@;
    let mut rest = items;
    let mut out: Vec<SourceItem> = Vec::new();
    while rest.len() > 0
        invariant
            rest@ == all.take(rest.len() as int),
            rest.len() <= all.len(),
            out.len() == all.len() - rest.len(),
            forall|k: int|
                0 <= k < out.len() ==> item_scanned(#[trigger] out@[k], all[rest.len() + k]),
        decreases rest.len(),
    {
        let n = rest.len();
        let it = rest.pop().unwrap();
        proof {
            assert(it == all[n - 1]);
            assert(rest@ =~= all.take(n - 1));
        }
        let s = item_source(it);
        let ghost before = out@;
        out.insert(0, s);
        proof {
            assert forall|k: int| 0 <= k < out.len() implies item_scanned(#[trigger] out@[k], all[rest.len() + k]) by {
                if k > 0 {
                    assert(out@[k] == before[k - 1]);
                }
            }
        }
    }
    out
}

/// Whether `m` is the storage model the scan builds from `srcs`.
pub open spec fn scanned_model(m: FileModel, srcs: Seq<SourceItem>) -> bool {
    &&& strings_view(m.critical_types@) == items_critical(srcs)
    &&& counts_view(m.struct_field_counts@) == items_field_counts(srcs)
    &&& types_view(m.struct_field_types@) == items_field_types(srcs)
    &&& pairs_view(m.bindings@) == items_bindings(srcs)
    &&& m.decls@ == items_decls(srcs)
    &&& m.fns@ == items_fns(srcs)
}

/// Whether `m` is the storage model of a file with these items.
pub open spec fn model_of_items(m: FileModel, its: Seq<ItemSyntax>) -> bool {
    exists|srcs: Seq<SourceItem>| items_scanned(srcs, its) && scanned_model(m, srcs)
}

/// Lints one file from its items, as the parser gave them (`None` for a
/// file that does not parse, which has no findings: it is the compiler's
/// to report).
pub fn lint_parsed(path: &str, source: &str, items: Option<Vec<ItemSyntax>>, opts: &LintOptions) -> (r: Vec<Finding>)
    ensures
        items is None ==> r@.len() == 0,
        items matches Some(its) ==> exists|m: FileModel|
            model_of_items(m, its@) && r@.map_values(|f: Finding| f@) == file_findings(
                path@,
                source@,
                m,
                opts.ignored_rules@.map_values(|s: String| s@),
            ),
{
    match items {
        None => Vec::new(),
        Some(its) => {
            let ghost iv = its@;
            let srcs = source_items(its);
            let ghost sv = srcs@;
            let model = scan_items(srcs);
            let r = lint_model(path, source, &model, opts);
            proof {
                assert(items_scanned(sv, iv) && scanned_model(model, sv));
                assert(model_of_items(model, iv));
            }
            r
        },
    }
}

} // verus!
