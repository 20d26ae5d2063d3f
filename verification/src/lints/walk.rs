//! The walk over a function body that finds its storage chains: every
//! `env.storage().<lifecycle>().<method>(...)` call, whether it sits in a
//! loop, and whether the function manages TTLs explicitly.
//!
//! A body is given as a tree of the expressions the walk distinguishes;
//! every other expression keeps the expressions directly inside it, in
//! source order, so the walk reaches every call.

use vstd::prelude::*;
use crate::lints::parse::{
    ArgExpr, Lifecycle, StorageChain, chain_lifecycle, is_terminal_method, is_ttl_method,
    spec_chain_lifecycle, terminal_methods, ttl_methods,
};
use crate::grammar::Token;
use crate::lints::scan::{SourceFn, pairs_view};

verus! {

/// An expression of a function body, as the walk reads it.
pub enum Syntax {
    /// `receiver.method(args)`, with the line and column where it starts.
    MethodCall { receiver: Box<Syntax>, method: String, args: Vec<Syntax>, line: usize, column: usize },
    /// `func(args)`.
    Call { func: Box<Syntax>, args: Vec<Syntax> },
    /// A `for`, `while` or `loop` expression: the expressions of its header
    /// and of its body, in order.
    Loop(Vec<Syntax>),
    /// A path, holding its last segment.
    Path(String),
    /// `&expr`.
    Reference(Box<Syntax>),
    /// `base.member`.
    Field { base: Box<Syntax>, member: String },
    /// A closure: the normalized type of each parameter that has one, and
    /// its body.
    Closure { params: Vec<Option<String>>, body: Box<Syntax> },
    /// An integer literal, holding its base-10 digits.
    IntLit(String),
    /// Any other expression, with the expressions directly inside it.
    Other(Vec<Syntax>),
}

/// The method names along a receiver, outermost first:
/// `env.storage().persistent()` gives `["persistent", "storage"]`.
pub open spec fn receiver_names(e: Syntax) -> Seq<Seq<char>>
    decreases e,
{
    match e {
        Syntax::MethodCall { receiver, method, .. } => seq![method@] + receiver_names(*receiver),
        Syntax::Call { func, .. } => receiver_names(*func),
        _ => seq![],
    }
}

/// A chain as the walk reports it, as plain values.
pub struct ChainView {
    pub lifecycle: Lifecycle,
    pub method: Seq<char>,
    pub args: Seq<ArgShape>,
    pub line: int,
    pub column: int,
    pub inside_loop: bool,
}

/// The shape of an argument, as plain values.
pub enum ArgShape {
    Reference(Box<ArgShape>),
    Call(Box<ArgShape>),
    Path(Seq<char>),
    Field(Seq<char>),
    MethodCall(Seq<char>),
    Closure(Seq<Option<Seq<char>>>),
    IntLit(Seq<char>),
    Other,
}

pub open spec fn params_view(ps: Seq<Option<String>>) -> Seq<Option<Seq<char>>> {
    ps.map_values(
        |p: Option<String>|
            match p {
                Some(s) => Some(s@),
                None => None,
            },
    )
}

/// The shape of an argument expression.
pub open spec fn shape_of(e: Syntax) -> ArgShape
    decreases e,
{
    match e {
        Syntax::Reference(b) => ArgShape::Reference(Box::new(shape_of(*b))),
        Syntax::Call { func, .. } => ArgShape::Call(Box::new(shape_of(*func))),
        Syntax::Path(p) => ArgShape::Path(p@),
        Syntax::Field { member, .. } => ArgShape::Field(member@),
        Syntax::MethodCall { method, .. } => ArgShape::MethodCall(method@),
        Syntax::Closure { params, .. } => ArgShape::Closure(params_view(params@)),
        Syntax::IntLit(d) => ArgShape::IntLit(d@),
        _ => ArgShape::Other,
    }
}

/// The view of an argument the rules read.
pub open spec fn arg_view(a: ArgExpr) -> ArgShape
    decreases a,
{
    match a {
        ArgExpr::Reference(b) => ArgShape::Reference(Box::new(arg_view(*b))),
        ArgExpr::Call(b) => ArgShape::Call(Box::new(arg_view(*b))),
        ArgExpr::Path(p) => ArgShape::Path(p@),
        ArgExpr::Field(m) => ArgShape::Field(m@),
        ArgExpr::MethodCall(m) => ArgShape::MethodCall(m@),
        ArgExpr::Closure(ps) => ArgShape::Closure(params_view(ps@)),
        ArgExpr::IntLit(d) => ArgShape::IntLit(d@),
        ArgExpr::Other => ArgShape::Other,
    }
}

pub open spec fn chain_view(c: StorageChain) -> ChainView {
    ChainView {
        lifecycle: c.lifecycle,
        method: c.method@,
        args: c.args@.map_values(|a: ArgExpr| arg_view(a)),
        line: c.line as int,
        column: c.column as int,
        inside_loop: c.inside_loop,
    }
}

pub open spec fn chains_view(cs: Seq<StorageChain>) -> Seq<ChainView> {
    cs.map_values(|c: StorageChain| chain_view(c))
}

/// The chain a method call is, if it is one: a terminal method on a
/// receiver that goes through `storage()` and names a lifecycle.
pub open spec fn chain_here(e: Syntax, in_loop: bool) -> Seq<ChainView> {
    match e {
        Syntax::MethodCall { receiver, method, args, line, column } => if terminal_methods().contains(
            method@,
        ) && spec_chain_lifecycle(receiver_names(*receiver)) is Some {
            seq![
                ChainView {
                    lifecycle: spec_chain_lifecycle(receiver_names(*receiver))->Some_0,
                    method: method@,
                    args: args@.map_values(|a: Syntax| shape_of(a)),
                    line: line as int,
                    column: column as int,
                    inside_loop: in_loop,
                },
            ]
        } else {
            seq![]
        },
        _ => seq![],
    }
}

/// The chains of an expression, in the order the walk meets them: a call
/// before what is inside it, a receiver before the arguments.
pub open spec fn node_chains(e: Syntax, in_loop: bool) -> Seq<ChainView>
    decreases e,
{
    match e {
        Syntax::MethodCall { receiver, args, .. } => chain_here(e, in_loop) + node_chains(*receiver, in_loop)
            + list_chains(args@, in_loop),
        Syntax::Call { func, args } => node_chains(*func, in_loop) + list_chains(args@, in_loop),
        Syntax::Loop(items) => list_chains(items@, true),
        Syntax::Reference(b) => node_chains(*b, in_loop),
        Syntax::Field { base, .. } => node_chains(*base, in_loop),
        Syntax::Closure { body, .. } => node_chains(*body, in_loop),
        Syntax::Other(items) => list_chains(items@, in_loop),
        _ => seq![],
    }
}

/// The chains of a list of expressions, in order.
pub open spec fn list_chains(es: Seq<Syntax>, in_loop: bool) -> Seq<ChainView>
    decreases es,
{
    if es.len() == 0 {
        seq![]
    } else {
        list_chains(es.drop_last(), in_loop) + node_chains(es.last(), in_loop)
    }
}


/// Whether an expression itself manages a TTL: a call of a TTL method, on
/// any receiver, or of a function by that name.
pub open spec fn ttl_here(e: Syntax) -> bool {
    match e {
        Syntax::MethodCall { method, .. } => ttl_methods().contains(method@),
        Syntax::Call { func, .. } => (*func matches Syntax::Path(p) && ttl_methods().contains(p@)),
        _ => false,
    }
}

/// Whether an expression, or one inside it, manages a TTL.
pub open spec fn node_has_ttl(e: Syntax) -> bool
    decreases e,
{
    ttl_here(e) || match e {
        Syntax::MethodCall { receiver, args, .. } => node_has_ttl(*receiver) || list_has_ttl(args@),
        Syntax::Call { func, args } => node_has_ttl(*func) || list_has_ttl(args@),
        Syntax::Loop(items) => list_has_ttl(items@),
        Syntax::Reference(b) => node_has_ttl(*b),
        Syntax::Field { base, .. } => node_has_ttl(*base),
        Syntax::Closure { body, .. } => node_has_ttl(*body),
        Syntax::Other(items) => list_has_ttl(items@),
        _ => false,
    }
}

/// Whether one of a list of expressions manages a TTL.
pub open spec fn list_has_ttl(es: Seq<Syntax>) -> bool
    decreases es,
{
    if es.len() == 0 {
        false
    } else {
        list_has_ttl(es.drop_last()) || node_has_ttl(es.last())
    }
}

fn receiver_method_names(e: &Syntax) -> (r: Vec<String>)
    ensures
        r@.map_values(|n: String| n@) == receiver_names(*e),
    decreases e,
{
    match e {
        Syntax::MethodCall { receiver, method, .. } => {
            let mut rest = receiver_method_names(receiver);
            let ghost before = rest@.map_values(|n: String| n@);
            rest.insert(0, method.clone());
            assert(rest@.map_values(|n: String| n@) =~= seq![method@] + before);
            rest
        },
        Syntax::Call { func, .. } => receiver_method_names(func),
        _ => {
            let v: Vec<String> = Vec::new();
            assert(v@.map_values(|n: String| n@) =~= Seq::<Seq<char>>::empty());
            v
        },
    }
}

fn copy_params(ps: &Vec<Option<String>>) -> (r: Vec<Option<String>>)
    ensures
        params_view(r@) == params_view(ps@),
{
    let mut out: Vec<Option<String>> = Vec::new();
    let mut k: usize = 0;
    while k < ps.len()
        invariant
            k <= ps.len(),
            params_view(out@) == params_view(ps@.take(k as int)),
        decreases ps.len() - k,
    {
        let p = match &ps[k] {
            Some(t) => Some(t.clone()),
            None => None,
        };
        let ghost before = params_view(out@);
        out.push(p);
        proof {
            assert(params_view(out@) =~= before.push(params_view(ps@)[k as int]));
            assert(params_view(ps@.take(k + 1)) =~= params_view(ps@.take(k as int)).push(
                params_view(ps@)[k as int],
            ));
        }
        k = k + 1;
    }
    assert(ps@.take(ps.len() as int) =~= ps@);
    out
}

/// The shape of an argument expression, as the rules read it.
pub fn arg_expr(e: &Syntax) -> (r: ArgExpr)
    ensures
        arg_view(r) == shape_of(*e),
    decreases e,
{
    match e {
        Syntax::Reference(b) => ArgExpr::Reference(Box::new(arg_expr(b))),
        Syntax::Call { func, .. } => ArgExpr::Call(Box::new(arg_expr(func))),
        Syntax::Path(p) => ArgExpr::Path(p.clone()),
        Syntax::Field { member, .. } => ArgExpr::Field(member.clone()),
        Syntax::MethodCall { method, .. } => ArgExpr::MethodCall(method.clone()),
        Syntax::Closure { params, .. } => ArgExpr::Closure(copy_params(params)),
        Syntax::IntLit(d) => ArgExpr::IntLit(d.clone()),
        _ => ArgExpr::Other,
    }
}

fn arg_exprs(es: &Vec<Syntax>) -> (r: Vec<ArgExpr>)
    ensures
        r@.map_values(|a: ArgExpr| arg_view(a)) == es@.map_values(|a: Syntax| shape_of(a)),
{
    let mut out: Vec<ArgExpr> = Vec::new();
    let mut k: usize = 0;
    while k < es.len()
        invariant
            k <= es.len(),
            out@.map_values(|a: ArgExpr| arg_view(a)) == es@.take(k as int).map_values(|a: Syntax| shape_of(a)),
        decreases es.len() - k,
    {
        let a = arg_expr(&es[k]);
        let ghost before = out@.map_values(|x: ArgExpr| arg_view(x));
        out.push(a);
        proof {
            assert(out@.map_values(|x: ArgExpr| arg_view(x)) =~= before.push(shape_of(es@[k as int])));
            assert(es@.take(k + 1).map_values(|x: Syntax| shape_of(x)) =~= es@.take(k as int).map_values(
                |x: Syntax| shape_of(x),
            ).push(shape_of(es@[k as int])));
        }
        k = k + 1;
    }
    assert(es@.take(es.len() as int) =~= es@);
    out
}

fn push_chain(chains: &mut Vec<StorageChain>, c: StorageChain)
    ensures
        chains_view(final(chains)@) == chains_view(old(chains)@).push(chain_view(c)),
{
    let ghost before = chains_view(chains@);
    let ghost cv = chain_view(c);
    chains.push(c);
    assert(chains_view(chains@) =~= before.push(cv));
}

fn walk_node(e: &Syntax, in_loop: bool, chains: &mut Vec<StorageChain>, ttl: &mut bool)
    ensures
        chains_view(final(chains)@) == chains_view(old(chains)@) + node_chains(*e, in_loop),
        *final(ttl) == (*old(ttl) || node_has_ttl(*e)),
    decreases e,
{
    match e {
        Syntax::MethodCall { receiver, method, args, line, column } => {
            if is_terminal_method(method.as_str()) {
                let names = receiver_method_names(receiver);
                match chain_lifecycle(&names) {
                    Some(lifecycle) => {
                        let c = StorageChain {
                            lifecycle,
                            method: method.clone(),
                            args: arg_exprs(args),
                            line: *line,
                            column: *column,
                            inside_loop: in_loop,
                        };
                        push_chain(chains, c);
                    },
                    None => {},
                }
            }
            if is_ttl_method(method.as_str()) {
                *ttl = true;
            }
            let ghost mid = chains_view(chains@);
            walk_node(receiver, in_loop, chains, ttl);
            walk_list(args, in_loop, chains, ttl);
            proof {
                assert(chains_view(chains@) =~= chains_view(old(chains)@) + node_chains(*e, in_loop));
            }
        },
        Syntax::Call { func, args } => {
            match &**func {
                Syntax::Path(p) => {
                    if is_ttl_method(p.as_str()) {
                        *ttl = true;
                    }
                },
                _ => {},
            }
            walk_node(func, in_loop, chains, ttl);
            walk_list(args, in_loop, chains, ttl);
            proof {
                assert(chains_view(chains@) =~= chains_view(old(chains)@) + node_chains(*e, in_loop));
            }
        },
        Syntax::Loop(items) => walk_list(items, true, chains, ttl),
        Syntax::Reference(b) => walk_node(b, in_loop, chains, ttl),
        Syntax::Field { base, .. } => walk_node(base, in_loop, chains, ttl),
        Syntax::Closure { body, .. } => walk_node(body, in_loop, chains, ttl),
        Syntax::Other(items) => walk_list(items, in_loop, chains, ttl),
        _ => {
            assert(chains_view(chains@) =~= chains_view(old(chains)@) + node_chains(*e, in_loop));
        },
    }
}

fn walk_list(es: &Vec<Syntax>, in_loop: bool, chains: &mut Vec<StorageChain>, ttl: &mut bool)
    ensures
        chains_view(final(chains)@) == chains_view(old(chains)@) + list_chains(es@, in_loop),
        *final(ttl) == (*old(ttl) || list_has_ttl(es@)),
    decreases es,
{
    let ghost start = chains_view(chains@);
    let ghost t0 = *ttl;
    let mut k: usize = 0;
    assert(es@.take(0) =~= Seq::<Syntax>::empty());
    assert(start + list_chains(es@.take(0), in_loop) =~= start);
    while k < es.len()
        invariant
            k <= es.len(),
            chains_view(chains@) == start + list_chains(es@.take(k as int), in_loop),
            *ttl == (t0 || list_has_ttl(es@.take(k as int))),
        decreases es.len() - k,
    {
        proof {
            assert(es@.take(k + 1).drop_last() =~= es@.take(k as int));
            assert(es@.take(k + 1).last() == es@[k as int]);
        }
        walk_node(&es[k], in_loop, chains, ttl);
        proof {
            assert(chains_view(chains@) =~= start + list_chains(es@.take(k + 1), in_loop));
        }
        k = k + 1;
    }
    assert(es@.take(es.len() as int) =~= es@);
}


/// An attribute as the scan reads it: the segments of its path and, for a
/// list attribute `#[path(...)]`, the tokens inside the list.
pub struct AttrSyntax {
    pub path: Vec<String>,
    pub list: Option<Vec<Token>>,
}

/// An item of a file or of a function body, as the scan reads it.
pub enum ItemSyntax {
    /// A struct: its name, its number of fields, its named fields with their
    /// normalized types, and its attributes.
    Struct { name: String, field_count: usize, fields: Vec<(String, String)>, attrs: Vec<AttrSyntax> },
    /// An enum: its name and its attributes.
    Enum { name: String, attrs: Vec<AttrSyntax> },
    /// An `impl` block: the last segment of the implemented trait (if any),
    /// the last segment of the implementing path type (if it is one), the
    /// `Self` type, and its functions.
    Impl { trait_name: Option<String>, self_path: Option<String>, self_type: Option<String>, fns: Vec<FnSyntax> },
    /// A macro invocation: the segments of its path and its tokens.
    Macro { path: Vec<String>, tokens: Vec<Token> },
    /// A function.
    Fn(FnSyntax),
    /// Any other item.
    Other,
}

/// A function as the walk reads it.
pub struct FnSyntax {
    /// Its parameters bound by a plain name, with their normalized types.
    pub params: Vec<(String, String)>,
    /// The items declared directly in its body.
    pub items: Vec<ItemSyntax>,
    /// The expressions of its body, in order (those of nested functions
    /// included).
    pub body: Vec<Syntax>,
}

/// The parameter bindings of a function: its own, then those of the
/// functions declared in its body, in order.
pub open spec fn fn_bindings(f: FnSyntax) -> Seq<(Seq<char>, Seq<char>)>
    decreases f,
{
    pairs_view(f.params@) + nested_bindings(f.items@)
}

/// The bindings of the functions among `items`, in order.
pub open spec fn nested_bindings(items: Seq<ItemSyntax>) -> Seq<(Seq<char>, Seq<char>)>
    decreases items,
{
    if items.len() == 0 {
        seq![]
    } else {
        nested_bindings(items.drop_last()) + match items.last() {
            ItemSyntax::Fn(g) => fn_bindings(g),
            _ => seq![],
        }
    }
}

fn push_pair(out: &mut Vec<(String, String)>, p: &(String, String))
    ensures
        pairs_view(final(out)@) == pairs_view(old(out)@).push((p.0@, p.1@)),
{
    let ghost before = pairs_view(out@);
    out.push((p.0.clone(), p.1.clone()));
    assert(pairs_view(out@) =~= before.push((p.0@, p.1@)));
}

fn collect_bindings(f: &FnSyntax, out: &mut Vec<(String, String)>)
    ensures
        pairs_view(final(out)@) == pairs_view(old(out)@) + fn_bindings(*f),
    decreases f,
{
    let ghost start = pairs_view(out@);
    let mut k: usize = 0;
    while k < f.params.len()
        invariant
            k <= f.params.len(),
            pairs_view(out@) == start + pairs_view(f.params@.take(k as int)),
        decreases f.params.len() - k,
    {
        push_pair(out, &f.params[k]);
        proof {
            assert(pairs_view(f.params@.take(k + 1)) =~= pairs_view(f.params@.take(k as int)).push(
                (f.params@[k as int].0@, f.params@[k as int].1@),
            ));
        }
        k = k + 1;
    }
    assert(f.params@.take(f.params.len() as int) =~= f.params@);
    let ghost mid = pairs_view(out@);
    let mut j: usize = 0;
    assert(nested_bindings(f.items@.take(0)) =~= Seq::<(Seq<char>, Seq<char>)>::empty()) by {
        assert(f.items@.take(0).len() == 0);
    }
    while j < f.items.len()
        invariant
            j <= f.items.len(),
            pairs_view(out@) == mid + nested_bindings(f.items@.take(j as int)),
        decreases f.items.len() - j,
    {
        proof {
            assert(f.items@.take(j + 1).drop_last() =~= f.items@.take(j as int));
            assert(f.items@.take(j + 1).last() == f.items@[j as int]);
        }
        match &f.items[j] {
            ItemSyntax::Fn(g) => collect_bindings(g, out),
            _ => {
                assert(pairs_view(out@) =~= mid + nested_bindings(f.items@.take(j + 1)));
            },
        }
        j = j + 1;
    }
    assert(f.items@.take(f.items.len() as int) =~= f.items@);
}

/// The storage activity of a function: its parameter bindings, the storage
/// chains of its body in source order, and whether it manages TTLs.
pub fn scan_fn(f: &FnSyntax) -> (r: SourceFn)
    ensures
        pairs_view(r.bindings@) == fn_bindings(*f),
        chains_view(r.chains@) == list_chains(f.body@, false),
        r.has_ttl_call == list_has_ttl(f.body@),
{
    let mut bindings: Vec<(String, String)> = Vec::new();
    assert(pairs_view(bindings@) =~= Seq::<(Seq<char>, Seq<char>)>::empty());
    collect_bindings(f, &mut bindings);
    let mut chains: Vec<StorageChain> = Vec::new();
    let mut ttl = false;
    assert(chains_view(chains@) =~= Seq::<ChainView>::empty());
    walk_list(&f.body, false, &mut chains, &mut ttl);
    SourceFn { bindings, chains, has_ttl_call: ttl }
}

} // verus!

verus! {

/// The expressions directly inside an expression, in source order: a
/// call's receiver or callee and then its arguments, the header and body of
/// a loop, the operand of a reference or field access, the body of a
/// closure, the parts of any other expression.
pub open spec fn sub_exprs(e: Syntax) -> Seq<Syntax> {
    match e {
        Syntax::MethodCall { receiver, args, .. } => seq![*receiver] + args@,
        Syntax::Call { func, args } => seq![*func] + args@,
        Syntax::Loop(items) => items@,
        Syntax::Reference(b) => seq![*b],
        Syntax::Field { base, .. } => seq![*base],
        Syntax::Closure { body, .. } => seq![*body],
        Syntax::Other(items) => items@,
        _ => seq![],
    }
}

/// The expression reached from `e` by descending, step by step, into the
/// sub-expression at each index of `path`, if every index is in range.
pub open spec fn at_path(e: Syntax, path: Seq<int>) -> Option<Syntax>
    decreases path.len(),
{
    if path.len() == 0 {
        Some(e)
    } else if 0 <= path[0] < sub_exprs(e).len() {
        at_path(sub_exprs(e)[path[0]], path.drop_first())
    } else {
        None
    }
}

/// Whether a loop lies on the way from `e` down `path`, above the expression
/// the path reaches.
pub open spec fn loops_on_path(e: Syntax, path: Seq<int>) -> bool
    decreases path.len(),
{
    if path.len() == 0 {
        false
    } else if 0 <= path[0] < sub_exprs(e).len() {
        e is Loop || loops_on_path(sub_exprs(e)[path[0]], path.drop_first())
    } else {
        false
    }
}

proof fn lemma_contains_in_concat(a: Seq<ChainView>, b: Seq<ChainView>, x: ChainView)
    ensures
        a.contains(x) ==> (a + b).contains(x),
        b.contains(x) ==> (a + b).contains(x),
{
    if a.contains(x) {
        let k = choose|k: int| 0 <= k < a.len() && a[k] == x;
        assert((a + b)[k] == x);
    }
    if b.contains(x) {
        let k = choose|k: int| 0 <= k < b.len() && b[k] == x;
        assert((a + b)[a.len() + k] == x);
    }
}

proof fn lemma_list_chains_cover_items(es: Seq<Syntax>, in_loop: bool, k: int, x: ChainView)
    requires
        0 <= k < es.len(),
        node_chains(es[k], in_loop).contains(x),
    ensures
        list_chains(es, in_loop).contains(x),
    decreases es.len(),
{
    let prev = list_chains(es.drop_last(), in_loop);
    let last = node_chains(es.last(), in_loop);
    if k < es.len() - 1 {
        assert(es.drop_last()[k] == es[k]);
        lemma_list_chains_cover_items(es.drop_last(), in_loop, k, x);
    }
    lemma_contains_in_concat(prev, last, x);
}

/// The walk of an expression reports every chain the walk of each of its
/// sub-expressions reports, a closure's body and a loop's contents included;
/// the contents of a loop are walked as inside a loop.
pub proof fn lemma_walk_covers_sub_expressions(e: Syntax, in_loop: bool, k: int, x: ChainView)
    requires
        0 <= k < sub_exprs(e).len(),
        node_chains(sub_exprs(e)[k], e is Loop || in_loop).contains(x),
    ensures
        node_chains(e, in_loop).contains(x),
{
    match e {
        Syntax::MethodCall { receiver, args, .. } => {
            let head = chain_here(e, in_loop);
            let rec = node_chains(*receiver, in_loop);
            let rest = list_chains(args@, in_loop);
            if k == 0 {
                lemma_contains_in_concat(head, rec, x);
            } else {
                assert(sub_exprs(e)[k] == args@[k - 1]);
                lemma_list_chains_cover_items(args@, in_loop, k - 1, x);
            }
            lemma_contains_in_concat(head + rec, rest, x);
        },
        Syntax::Call { func, args } => {
            let fc = node_chains(*func, in_loop);
            let rest = list_chains(args@, in_loop);
            if k > 0 {
                assert(sub_exprs(e)[k] == args@[k - 1]);
                lemma_list_chains_cover_items(args@, in_loop, k - 1, x);
            }
            lemma_contains_in_concat(fc, rest, x);
        },
        Syntax::Loop(items) => {
            lemma_list_chains_cover_items(items@, true, k, x);
        },
        Syntax::Other(items) => {
            lemma_list_chains_cover_items(items@, in_loop, k, x);
        },
        _ => {},
    }
}

/// Every storage call anywhere inside an expression, however deeply nested
/// (in a receiver, an argument, a loop, a closure body), is among the chains
/// the walk reports for the expression, marked as inside a loop when the walk
/// starts inside one or a loop encloses the call.
pub proof fn lemma_walk_finds_nested_chains(e: Syntax, in_loop: bool, path: Seq<int>)
    requires
        at_path(e, path) is Some,
        chain_here(at_path(e, path)->Some_0, in_loop || loops_on_path(e, path)).len() > 0,
    ensures
        node_chains(e, in_loop).contains(
            chain_here(at_path(e, path)->Some_0, in_loop || loops_on_path(e, path))[0],
        ),
    decreases path.len(),
{
    let d = at_path(e, path)->Some_0;
    let x = chain_here(d, in_loop || loops_on_path(e, path))[0];
    if path.len() == 0 {
        assert(d == e);
        match e {
            Syntax::MethodCall { receiver, args, .. } => {
                let head = chain_here(e, in_loop);
                assert(head[0] == x);
                lemma_contains_in_concat(head, node_chains(*receiver, in_loop), x);
                lemma_contains_in_concat(
                    head + node_chains(*receiver, in_loop),
                    list_chains(args@, in_loop),
                    x,
                );
            },
            _ => {},
        }
    } else {
        let k = path[0];
        let child = sub_exprs(e)[k];
        let inner = e is Loop || in_loop;
        assert(at_path(child, path.drop_first()) == at_path(e, path));
        assert((inner || loops_on_path(child, path.drop_first())) == (in_loop || loops_on_path(
            e,
            path,
        )));
        lemma_walk_finds_nested_chains(child, inner, path.drop_first());
        lemma_walk_covers_sub_expressions(e, in_loop, k, x);
    }
}

/// Every storage call anywhere in a function body is among the chains the
/// scan of the function reports, marked as inside a loop exactly when a loop
/// encloses it.
pub proof fn lemma_scan_finds_every_chain(f: FnSyntax, i: int, path: Seq<int>)
    requires
        0 <= i < f.body@.len(),
        at_path(f.body@[i], path) is Some,
        chain_here(at_path(f.body@[i], path)->Some_0, loops_on_path(f.body@[i], path)).len() > 0,
    ensures
        list_chains(f.body@, false).contains(
            chain_here(at_path(f.body@[i], path)->Some_0, loops_on_path(f.body@[i], path))[0],
        ),
{
    lemma_walk_finds_nested_chains(f.body@[i], false, path);
    lemma_list_chains_cover_items(
        f.body@,
        false,
        i,
        chain_here(at_path(f.body@[i], path)->Some_0, loops_on_path(f.body@[i], path))[0],
    );
}

} // verus!
