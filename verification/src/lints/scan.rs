//! Building the storage model of a file from its top-level items.
//!
//! The model is built in two passes over the items: the first gathers the
//! file-level facts (struct shapes, the types that are `Critical`, the
//! `storage!` declarations and every function's parameter bindings); the
//! second records the storage activity of each function, with the `Self`
//! type of the `impl` block it sits in.

use vstd::prelude::*;
use crate::lints::parse::{FileModel, FnStorage, StorageChain, StorageDecl, derives_critical};
use crate::text::str_eq;

verus! {

/// A function as the model needs it: its parameter bindings (those of
/// functions nested in its body included, in source order), its storage
/// chains, and whether it manages a TTL explicitly.
pub struct SourceFn {
    pub bindings: Vec<(String, String)>,
    pub chains: Vec<StorageChain>,
    pub has_ttl_call: bool,
}

/// A top-level item of a file, as far as the model reads it.
pub enum SourceItem {
    /// A struct: its name, its number of fields, its named fields with their
    /// types, and the last-segment names of each of its `#[derive(...)]`.
    Struct { name: String, field_count: usize, fields: Vec<(String, String)>, derives: Vec<Vec<String>> },
    /// An enum: its name and its derive lists.
    Enum { name: String, derives: Vec<Vec<String>> },
    /// An `impl` block: the last segment of the implemented trait (if any),
    /// the last segment of the implementing path type (if it is one), the
    /// `Self` type, and the functions.
    Impl { trait_name: Option<String>, self_path: Option<String>, self_type: Option<String>, fns: Vec<SourceFn> },
    /// A `storage!` invocation with its entries.
    Storage { decls: Vec<StorageDecl> },
    /// A free function.
    Fn(SourceFn),
    /// Anything else.
    Other,
}

pub open spec fn pairs_view(ps: Seq<(String, String)>) -> Seq<(Seq<char>, Seq<char>)> {
    ps.map_values(|p: (String, String)| (p.0@, p.1@))
}

pub open spec fn strings_view(ss: Seq<String>) -> Seq<Seq<char>> {
    ss.map_values(|s: String| s@)
}

/// Whether a derive list, or an implemented trait, makes a type critical.
pub open spec fn names_critical(derives: Seq<Vec<String>>) -> bool {
    exists|i: int, j: int|
        0 <= i < derives.len() && 0 <= j < derives[i].len() && #[trigger] derives[i]@[j]@ == "Critical"@
}

/// The critical type an item introduces, if any.
pub open spec fn item_critical(item: SourceItem) -> Option<Seq<char>> {
    match item {
        SourceItem::Struct { name, derives, .. } => if names_critical(derives@) {
            Some(name@)
        } else {
            None
        },
        SourceItem::Enum { name, derives } => if names_critical(derives@) {
            Some(name@)
        } else {
            None
        },
        SourceItem::Impl { trait_name, self_path, .. } => match (trait_name, self_path) {
            (Some(t), Some(p)) => if t@ == "Critical"@ {
                Some(p@)
            } else {
                None
            },
            _ => None,
        },
        _ => None,
    }
}

/// The critical types of the items, in order.
pub open spec fn items_critical(items: Seq<SourceItem>) -> Seq<Seq<char>>
    decreases items.len(),
{
    if items.len() == 0 {
        Seq::empty()
    } else {
        let rest = items_critical(items.drop_last());
        match item_critical(items.last()) {
            Some(n) => rest.push(n),
            None => rest,
        }
    }
}

/// The `(struct, field count)` pairs of the items, in order.
pub open spec fn items_field_counts(items: Seq<SourceItem>) -> Seq<(Seq<char>, usize)>
    decreases items.len(),
{
    if items.len() == 0 {
        Seq::empty()
    } else {
        let rest = items_field_counts(items.drop_last());
        match items.last() {
            SourceItem::Struct { name, field_count, .. } => rest.push((name@, field_count)),
            _ => rest,
        }
    }
}

/// The `(struct, named fields)` pairs of the items, in order.
pub open spec fn items_field_types(items: Seq<SourceItem>) -> Seq<(Seq<char>, Seq<(Seq<char>, Seq<char>)>)>
    decreases items.len(),
{
    if items.len() == 0 {
        Seq::empty()
    } else {
        let rest = items_field_types(items.drop_last());
        match items.last() {
            SourceItem::Struct { name, fields, .. } => rest.push((name@, pairs_view(fields@))),
            _ => rest,
        }
    }
}

/// The bindings of a list of functions, in order.
pub open spec fn fns_bindings(fs: Seq<SourceFn>) -> Seq<(Seq<char>, Seq<char>)>
    decreases fs.len(),
{
    if fs.len() == 0 {
        Seq::empty()
    } else {
        fns_bindings(fs.drop_last()) + pairs_view(fs.last().bindings@)
    }
}

/// Every binding of the items' functions, in order.
pub open spec fn items_bindings(items: Seq<SourceItem>) -> Seq<(Seq<char>, Seq<char>)>
    decreases items.len(),
{
    if items.len() == 0 {
        Seq::empty()
    } else {
        let rest = items_bindings(items.drop_last());
        match items.last() {
            SourceItem::Impl { fns, .. } => rest + fns_bindings(fns@),
            SourceItem::Fn(f) => rest + pairs_view(f.bindings@),
            _ => rest,
        }
    }
}

/// The `storage!` declarations of the items, in order.
pub open spec fn items_decls(items: Seq<SourceItem>) -> Seq<StorageDecl>
    decreases items.len(),
{
    if items.len() == 0 {
        Seq::empty()
    } else {
        let rest = items_decls(items.drop_last());
        match items.last() {
            SourceItem::Storage { decls } => rest + decls@,
            _ => rest,
        }
    }
}

/// The storage activity of one function.
pub open spec fn fn_storage(f: SourceFn, self_type: Option<String>) -> FnStorage {
    FnStorage { chains: f.chains, has_ttl_call: f.has_ttl_call, bindings: f.bindings, self_type }
}

pub open spec fn fns_storage(fs: Seq<SourceFn>, self_type: Option<String>) -> Seq<FnStorage> {
    fs.map_values(|f: SourceFn| fn_storage(f, self_type))
}

/// The storage activity of every function of the items, in order.
pub open spec fn items_fns(items: Seq<SourceItem>) -> Seq<FnStorage>
    decreases items.len(),
{
    if items.len() == 0 {
        Seq::empty()
    } else {
        let rest = items_fns(items.drop_last());
        match items.last() {
            SourceItem::Impl { self_type, fns, .. } => rest + fns_storage(fns@, self_type),
            SourceItem::Fn(f) => rest.push(fn_storage(f, None)),
            _ => rest,
        }
    }
}

fn copy_pairs(ps: &Vec<(String, String)>) -> (r: Vec<(String, String)>)
    ensures
        pairs_view(r@) == pairs_view(ps@),
{
    let mut out: Vec<(String, String)> = Vec::new();
    let mut i: usize = 0;
    while i < ps.len()
        invariant
            i <= ps.len(),
            pairs_view(out@) == pairs_view(ps@.take(i as int)),
        decreases ps.len() - i,
    {
        let ghost before = out@;
        let p = (ps[i].0.clone(), ps[i].1.clone());
        out.push(p);
        proof {
            assert(ps@.take(i + 1) =~= ps@.take(i as int).push(ps@[i as int]));
            assert(pairs_view(out@) =~= pairs_view(before).push((p.0@, p.1@)));
            assert(pairs_view(ps@.take(i + 1)) =~= pairs_view(ps@.take(i as int)).push(
                (ps@[i as int].0@, ps@[i as int].1@),
            ));
        }
        i = i + 1;
    }
    proof {
        assert(ps@.take(ps.len() as int) =~= ps@);
    }
    out
}

fn push_pairs(out: &mut Vec<(String, String)>, ps: &Vec<(String, String)>)
    ensures
        pairs_view(final(out)@) == pairs_view(old(out)@) + pairs_view(ps@),
{
    let ghost start = pairs_view(out@);
    let copied = copy_pairs(ps);
    let mut i: usize = 0;
    while i < copied.len()
        invariant
            i <= copied.len(),
            pairs_view(copied@) == pairs_view(ps@),
            pairs_view(out@) == start + pairs_view(copied@.take(i as int)),
        decreases copied.len() - i,
    {
        let ghost before = out@;
        let p = (copied[i].0.clone(), copied[i].1.clone());
        out.push(p);
        proof {
            assert(copied@.take(i + 1) =~= copied@.take(i as int).push(copied@[i as int]));
            assert(pairs_view(out@) =~= pairs_view(before).push((p.0@, p.1@)));
            assert(pairs_view(copied@.take(i + 1)) =~= pairs_view(copied@.take(i as int)).push(
                (copied@[i as int].0@, copied@[i as int].1@),
            ));
        }
        i = i + 1;
    }
    proof {
        assert(copied@.take(copied.len() as int) =~= copied@);
    }
}

/// The first pass: struct shapes, critical types and bindings, read without
/// consuming the items.
fn scan_facts(items: &Vec<SourceItem>, model: &mut FileModel)
    requires
        old(model).critical_types@.len() == 0,
        old(model).struct_field_counts@.len() == 0,
        old(model).struct_field_types@.len() == 0,
        old(model).bindings@.len() == 0,
    ensures
        final(model).decls == old(model).decls,
        final(model).fns == old(model).fns,
        strings_view(final(model).critical_types@) == items_critical(items@),
        counts_view(final(model).struct_field_counts@) == items_field_counts(items@),
        types_view(final(model).struct_field_types@) == items_field_types(items@),
        pairs_view(final(model).bindings@) == items_bindings(items@),
{
    let mut i: usize = 0;
    proof {
        assert(strings_view(model.critical_types@) =~= Seq::<Seq<char>>::empty());
        assert(counts_view(model.struct_field_counts@) =~= Seq::<(Seq<char>, usize)>::empty());
        assert(types_view(model.struct_field_types@) =~= Seq::<(Seq<char>, Seq<(Seq<char>, Seq<char>)>)>::empty());
        assert(pairs_view(model.bindings@) =~= Seq::<(Seq<char>, Seq<char>)>::empty());
    }
    while i < items.len()
        invariant
            i <= items.len(),
            model.decls == old(model).decls,
            model.fns == old(model).fns,
            strings_view(model.critical_types@) == items_critical(items@.take(i as int)),
            counts_view(model.struct_field_counts@) == items_field_counts(items@.take(i as int)),
            types_view(model.struct_field_types@) == items_field_types(items@.take(i as int)),
            pairs_view(model.bindings@) == items_bindings(items@.take(i as int)),
        decreases items.len() - i,
    {
        proof {
            assert(items@.take(i + 1).drop_last() =~= items@.take(i as int));
            assert(items@.take(i + 1).last() == items@[i as int]);
        }
        match &items[i] {
            SourceItem::Struct { name, field_count, fields, derives } => {
                let ghost c0 = model.struct_field_counts@;
                let ghost t0 = model.struct_field_types@;
                let ghost k0 = model.critical_types@;
                model.struct_field_counts.push((name.clone(), *field_count));
                let copied = copy_pairs(fields);
                model.struct_field_types.push((name.clone(), copied));
                proof {
                    assert(counts_view(model.struct_field_counts@) =~= counts_view(c0).push((name@, *field_count)));
                    assert(types_view(model.struct_field_types@) =~= types_view(t0).push((name@, pairs_view(fields@))));
                }
                if derives_critical(derives) {
                    model.critical_types.push(name.clone());
                    proof {
                        assert(strings_view(model.critical_types@) =~= strings_view(k0).push(name@));
                    }
                }
            },
            SourceItem::Enum { name, derives } => {
                let ghost k0 = model.critical_types@;
                if derives_critical(derives) {
                    model.critical_types.push(name.clone());
                    proof {
                        assert(strings_view(model.critical_types@) =~= strings_view(k0).push(name@));
                    }
                }
            },
            SourceItem::Impl { trait_name, self_path, fns, .. } => {
                let ghost k0 = model.critical_types@;
                match (trait_name, self_path) {
                    (Some(t), Some(sp)) => {
                        if str_eq(t.as_str(), "Critical") {
                            model.critical_types.push(sp.clone());
                            proof {
                                assert(strings_view(model.critical_types@) =~= strings_view(k0).push(sp@));
                            }
                        }
                    },
                    _ => {},
                }
                let ghost b0 = pairs_view(model.bindings@);
                let mut k: usize = 0;
                while k < fns.len()
                    invariant
                        k <= fns.len(),
                        pairs_view(model.bindings@) == b0 + fns_bindings(fns@.take(k as int)),
                        model.decls == old(model).decls,
                        model.fns == old(model).fns,
                        strings_view(model.critical_types@) == items_critical(items@.take(i + 1)),
                        counts_view(model.struct_field_counts@) == items_field_counts(items@.take(i + 1)),
                        types_view(model.struct_field_types@) == items_field_types(items@.take(i + 1)),
                    decreases fns.len() - k,
                {
                    proof {
                        assert(fns@.take(k + 1).drop_last() =~= fns@.take(k as int));
                        assert(fns@.take(k + 1).last() == fns@[k as int]);
                    }
                    push_pairs(&mut model.bindings, &fns[k].bindings);
                    proof {
                        assert(pairs_view(model.bindings@) =~= b0 + fns_bindings(fns@.take(k + 1)));
                    }
                    k = k + 1;
                }
                proof {
                    assert(fns@.take(fns.len() as int) =~= fns@);
                }
            },
            SourceItem::Fn(f) => {
                push_pairs(&mut model.bindings, &f.bindings);
            },
            _ => {},
        }
        i = i + 1;
    }
    proof {
        assert(items@.take(items.len() as int) =~= items@);
    }
}

pub open spec fn counts_view(cs: Seq<(String, usize)>) -> Seq<(Seq<char>, usize)> {
    cs.map_values(|p: (String, usize)| (p.0@, p.1))
}

pub open spec fn types_view(ts: Seq<(String, Vec<(String, String)>)>) -> Seq<(Seq<char>, Seq<(Seq<char>, Seq<char>)>)> {
    ts.map_values(|p: (String, Vec<(String, String)>)| (p.0@, pairs_view(p.1@)))
}

/// The second pass: the `storage!` declarations and each function's storage
/// activity, moved out of the items.
fn scan_activity(items: Vec<SourceItem>, model: &mut FileModel)
    ensures
        final(model).decls@ == old(model).decls@ + items_decls(items@),
        final(model).fns@ == old(model).fns@ + items_fns(items@),
        final(model).critical_types == old(model).critical_types,
        final(model).struct_field_counts == old(model).struct_field_counts,
        final(model).struct_field_types == old(model).struct_field_types,
        final(model).bindings == old(model).bindings,
{
    let ghost all = items@;
    let ghost d0 = model.decls@;
    let ghost f0 = model.fns@;
    let mut items = items;
    proof {
        assert(all.len() == items.len());
    }
    let mut done: usize = 0;
    while items.len() > 0
        invariant
            all.len() <= usize::MAX,
            done + items@.len() == all.len(),
            items@ == all.skip(done as int),
            model.decls@ == d0 + items_decls(all.take(done as int)),
            model.fns@ == f0 + items_fns(all.take(done as int)),
            model.critical_types == old(model).critical_types,
            model.struct_field_counts == old(model).struct_field_counts,
            model.struct_field_types == old(model).struct_field_types,
            model.bindings == old(model).bindings,
        decreases items.len(),
    {
        proof {
            assert(all.take(done + 1).drop_last() =~= all.take(done as int));
            assert(all.take(done + 1).last() == all[done as int]);
            assert(items@[0] == all[done as int]);
        }
        let item = items.remove(0);
        match item {
            SourceItem::Storage { decls } => {
                let ghost before = model.decls@;
                let mut decls = decls;
                let ghost ds = decls@;
                while decls.len() > 0
                    invariant
                        model.decls@ + decls@ == before + ds,
                        model.fns@ == f0 + items_fns(all.take(done as int)),
                        model.critical_types == old(model).critical_types,
                        model.struct_field_counts == old(model).struct_field_counts,
                        model.struct_field_types == old(model).struct_field_types,
                        model.bindings == old(model).bindings,
                    decreases decls.len(),
                {
                    let ghost m0 = model.decls@;
                    let ghost r0 = decls@;
                    let d = decls.remove(0);
                    model.decls.push(d);
                    proof {
                        assert(model.decls@ + decls@ =~= m0 + r0);
                    }
                }
                proof {
                    assert(model.decls@ =~= before + ds);
                }
            },
            SourceItem::Impl { self_type, fns, .. } => {
                let ghost before = model.fns@;
                let ghost fs = fns@;
                let mut fns = fns;
                proof {
                    assert(fs.len() == fns.len());
                }
                let mut taken: usize = 0;
                while fns.len() > 0
                    invariant
                        fs.len() <= usize::MAX,
                        taken + fns@.len() == fs.len(),
                        fns@ == fs.skip(taken as int),
                        model.fns@ == before + fns_storage(fs.take(taken as int), self_type),
                        model.decls@ == d0 + items_decls(all.take(done as int)),
                        model.critical_types == old(model).critical_types,
                        model.struct_field_counts == old(model).struct_field_counts,
                        model.struct_field_types == old(model).struct_field_types,
                        model.bindings == old(model).bindings,
                    decreases fns.len(),
                {
                    proof {
                        assert(fns@[0] == fs[taken as int]);
                    }
                    let f = fns.remove(0);
                    let st = match &self_type {
                        Some(t) => Some(t.clone()),
                        None => None,
                    };
                    let ghost m0 = model.fns@;
                    model.fns.push(
                        FnStorage { chains: f.chains, has_ttl_call: f.has_ttl_call, bindings: f.bindings, self_type: st },
                    );
                    proof {
                        assert(fs.take(taken + 1) =~= fs.take(taken as int).push(fs[taken as int]));
                        assert(fns_storage(fs.take(taken + 1), self_type) =~= fns_storage(
                            fs.take(taken as int),
                            self_type,
                        ).push(fn_storage(fs[taken as int], self_type)));
                        assert(model.fns@ =~= before + fns_storage(fs.take(taken + 1), self_type));
                        assert(fs.skip(taken as int).remove(0) =~= fs.skip(taken + 1));
                    }
                    taken = taken + 1;
                }
                proof {
                    assert(fs.take(taken as int) =~= fs);
                }
            },
            SourceItem::Fn(f) => {
                let ghost m0 = model.fns@;
                model.fns.push(
                    FnStorage { chains: f.chains, has_ttl_call: f.has_ttl_call, bindings: f.bindings, self_type: None },
                );
                proof {
                    assert(model.fns@ =~= m0.push(fn_storage(f, None)));
                }
            },
            _ => {},
        }
        proof {
            assert(all.skip(done as int).remove(0) =~= all.skip(done + 1));
        }
        done = done + 1;
    }
    proof {
        assert(all.take(done as int) =~= all);
    }
}

/// Builds the storage model of a file from its top-level items, in two
/// passes: first the struct shapes, the critical types (derived, or given by
/// an `impl Critical`) and every function's bindings; then the `storage!`
/// declarations and each function's storage activity, with the `Self` type
/// of its `impl` block.
pub fn scan_items(items: Vec<SourceItem>) -> (r: FileModel)
    ensures
        strings_view(r.critical_types@) == items_critical(items@),
        counts_view(r.struct_field_counts@) == items_field_counts(items@),
        types_view(r.struct_field_types@) == items_field_types(items@),
        pairs_view(r.bindings@) == items_bindings(items@),
        r.decls@ == items_decls(items@),
        r.fns@ == items_fns(items@),
{
    let mut model = FileModel::new();
    scan_facts(&items, &mut model);
    let ghost all = items@;
    scan_activity(items, &mut model);
    proof {
        assert(model.decls@ =~= items_decls(all));
        assert(model.fns@ =~= items_fns(all));
    }
    model
}

} // verus!
