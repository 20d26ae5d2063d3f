//! The grammar of a `storage!` declaration, over the tokens of the macro
//! body:
//!
//! ```text
//! body   := entry*
//! entry  := attr* IDENT "(" [type ("," type)* [","]] ")" "->" type ","
//! attr   := "#" "[" meta "]"
//! meta   := path | path group | path "=" token+
//! path   := IDENT ("::" IDENT)*
//! ```
//!
//! A type is a non-empty run of tokens up to the next comma that stands
//! outside every bracket, parenthesis, brace and `<...>`; the `>` of `->`
//! closes nothing. Groups are written as their opening token, their contents
//! and their closing token, so a body is a flat list of tokens.

use vstd::prelude::*;
use crate::text::push_char;

verus! {

/// The delimiter of a group.
#[derive(Clone, Copy, Debug, PartialEq, Eq, Structural)]
pub enum Delimiter {
    /// `( ... )`
    Parenthesis,
    /// `[ ... ]`
    Bracket,
    /// `{ ... }`
    Brace,
    /// A group without visible delimiters.
    Invisible,
}

/// What a token is.
#[derive(Clone, Debug)]
pub enum TokenKind {
    /// An identifier or keyword.
    Ident(String),
    /// A punctuation character, and whether the next token is joined to it
    /// (the `-` of `->` is).
    Punct(char, bool),
    /// A literal, as written.
    Literal(String),
    /// The start of a group.
    Open(Delimiter),
    /// The end of a group.
    Close(Delimiter),
}

/// A token with the line and column where it starts.
#[derive(Clone, Debug)]
pub struct Token {
    pub kind: TokenKind,
    pub line: usize,
    pub column: usize,
}

/// Whether token `i` is the punctuation character `c`.
pub open spec fn punct_at(ts: Seq<Token>, i: int, c: char) -> bool {
    0 <= i < ts.len() && (ts[i].kind matches TokenKind::Punct(x, _) && x == c)
}

/// Whether tokens `i` and `i + 1` form `->`.
pub open spec fn arrow_at(ts: Seq<Token>, i: int) -> bool {
    0 <= i < ts.len() && ts[i].kind == TokenKind::Punct('-', true) && punct_at(ts, i + 1, '>')
}

/// Whether token `i` is an identifier.
pub open spec fn ident_at(ts: Seq<Token>, i: int) -> bool {
    0 <= i < ts.len() && ts[i].kind is Ident
}

/// Whether token `i` is the identifier `name`.
pub open spec fn ident_is(ts: Seq<Token>, i: int, name: Seq<char>) -> bool {
    0 <= i < ts.len() && (ts[i].kind matches TokenKind::Ident(s) && s@ == name)
}

/// The index just past the token that closes the group whose contents start
/// at `j`, with `depth` groups open; `None` when the tokens end first.
pub open spec fn group_end(ts: Seq<Token>, j: int, depth: nat) -> Option<int>
    decreases ts.len() - j,
{
    if depth == 0 {
        Some(j)
    } else if j < 0 || j >= ts.len() {
        None
    } else if ts[j].kind is Open {
        group_end(ts, j + 1, depth + 1)
    } else if ts[j].kind is Close {
        group_end(ts, j + 1, (depth - 1) as nat)
    } else {
        group_end(ts, j + 1, depth)
    }
}

pub proof fn lemma_group_end_bounds(ts: Seq<Token>, j: int, depth: nat)
    requires
        0 <= j <= ts.len(),
    ensures
        group_end(ts, j, depth) matches Some(k) ==> j <= k <= ts.len() && (depth > 0 ==> j < k),
    decreases ts.len() - j,
{
    if depth > 0 && j < ts.len() {
        if ts[j].kind is Open {
            lemma_group_end_bounds(ts, j + 1, depth + 1);
        } else if ts[j].kind is Close {
            lemma_group_end_bounds(ts, j + 1, (depth - 1) as nat);
        } else {
            lemma_group_end_bounds(ts, j + 1, depth);
        }
    }
}

/// `group_end`, computed.
pub fn find_group_end(ts: &Vec<Token>, j: usize, depth: usize) -> (r: Option<usize>)
    requires
        depth <= j,
        j <= ts.len(),
    ensures
        r matches Some(k) ==> group_end(ts@, j as int, depth as nat) == Some(k as int),
        r is None ==> group_end(ts@, j as int, depth as nat) is None,
    decreases ts.len() - j,
{
    if depth == 0 {
        Some(j)
    } else if j >= ts.len() {
        None
    } else {
        match &ts[j].kind {
            TokenKind::Open(_) => find_group_end(ts, j + 1, depth + 1),
            TokenKind::Close(_) => find_group_end(ts, j + 1, depth - 1),
            _ => find_group_end(ts, j + 1, depth),
        }
    }
}

/// The end of a type that starts at `i` and may run to `hi`: the first comma
/// outside every group (`depth`) and every `<...>` (`angle`), or `hi`.
/// `None` when a group or a `<...>` is left open at `hi`, or one closes that
/// was not opened.
pub open spec fn type_end(ts: Seq<Token>, i: int, hi: int, depth: nat, angle: nat) -> Option<int>
    decreases hi - i,
{
    if i >= hi {
        if depth == 0 && angle == 0 {
            Some(hi)
        } else {
            None
        }
    } else if depth == 0 && angle == 0 && punct_at(ts, i, ',') {
        Some(i)
    } else if ts[i].kind is Open {
        type_end(ts, i + 1, hi, depth + 1, angle)
    } else if ts[i].kind is Close {
        if depth == 0 {
            None
        } else {
            type_end(ts, i + 1, hi, (depth - 1) as nat, angle)
        }
    } else if depth == 0 && arrow_at(ts, i) && i + 1 < hi {
        type_end(ts, i + 2, hi, depth, angle)
    } else if depth == 0 && punct_at(ts, i, '<') {
        type_end(ts, i + 1, hi, depth, angle + 1)
    } else if depth == 0 && punct_at(ts, i, '>') {
        if angle == 0 {
            None
        } else {
            type_end(ts, i + 1, hi, depth, (angle - 1) as nat)
        }
    } else {
        type_end(ts, i + 1, hi, depth, angle)
    }
}

pub proof fn lemma_type_end_bounds(ts: Seq<Token>, i: int, hi: int, depth: nat, angle: nat)
    ensures
        type_end(ts, i, hi, depth, angle) matches Some(k) ==> (i <= k <= hi || (i > hi && k == hi)),
    decreases hi - i,
{
    if i < hi {
        if depth == 0 && angle == 0 && punct_at(ts, i, ',') {
        } else if ts[i].kind is Open {
            lemma_type_end_bounds(ts, i + 1, hi, depth + 1, angle);
        } else if ts[i].kind is Close {
            if depth > 0 {
                lemma_type_end_bounds(ts, i + 1, hi, (depth - 1) as nat, angle);
            }
        } else if depth == 0 && arrow_at(ts, i) && i + 1 < hi {
            lemma_type_end_bounds(ts, i + 2, hi, depth, angle);
        } else if depth == 0 && punct_at(ts, i, '<') {
            lemma_type_end_bounds(ts, i + 1, hi, depth, angle + 1);
        } else if depth == 0 && punct_at(ts, i, '>') {
            if angle > 0 {
                lemma_type_end_bounds(ts, i + 1, hi, depth, (angle - 1) as nat);
            }
        } else {
            lemma_type_end_bounds(ts, i + 1, hi, depth, angle);
        }
    }
}

pub fn is_punct(ts: &Vec<Token>, i: usize, c: char) -> (r: bool)
    ensures
        r == punct_at(ts@, i as int, c),
{
    if i < ts.len() {
        match &ts[i].kind {
            TokenKind::Punct(x, _) => *x == c,
            _ => false,
        }
    } else {
        false
    }
}

fn is_arrow(ts: &Vec<Token>, i: usize) -> (r: bool)
    ensures
        r == arrow_at(ts@, i as int),
{
    if i < ts.len() {
        match &ts[i].kind {
            TokenKind::Punct(x, joint) => *x == '-' && *joint && i + 1 < ts.len() && is_punct(ts, i + 1, '>'),
            _ => false,
        }
    } else {
        false
    }
}

/// `type_end`, computed.
pub fn find_type_end(ts: &Vec<Token>, i: usize, hi: usize, depth: usize, angle: usize) -> (r: Option<usize>)
    requires
        hi <= ts.len(),
        i <= hi,
        depth <= i,
        angle <= i,
    ensures
        r matches Some(k) ==> type_end(ts@, i as int, hi as int, depth as nat, angle as nat) == Some(k as int),
        r is None ==> type_end(ts@, i as int, hi as int, depth as nat, angle as nat) is None,
    decreases hi - i,
{
    if i >= hi {
        if depth == 0 && angle == 0 {
            Some(hi)
        } else {
            None
        }
    } else if depth == 0 && angle == 0 && is_punct(ts, i, ',') {
        Some(i)
    } else {
        match &ts[i].kind {
            TokenKind::Open(_) => find_type_end(ts, i + 1, hi, depth + 1, angle),
            TokenKind::Close(_) => {
                if depth == 0 {
                    None
                } else {
                    find_type_end(ts, i + 1, hi, depth - 1, angle)
                }
            },
            _ => {
                if depth == 0 && is_arrow(ts, i) && i + 1 < hi {
                    find_type_end(ts, i + 2, hi, depth, angle)
                } else if depth == 0 && is_punct(ts, i, '<') {
                    find_type_end(ts, i + 1, hi, depth, angle + 1)
                } else if depth == 0 && is_punct(ts, i, '>') {
                    if angle == 0 {
                        None
                    } else {
                        find_type_end(ts, i + 1, hi, depth, angle - 1)
                    }
                } else {
                    find_type_end(ts, i + 1, hi, depth, angle)
                }
            },
        }
    }
}


/// The types of a parenthesized argument list whose contents run from `i` to
/// `hi`, as token ranges: types separated by commas, a trailing comma
/// allowed.
pub open spec fn arg_list(ts: Seq<Token>, i: int, hi: int) -> Option<Seq<(int, int)>>
    decreases hi - i,
{
    if i >= hi {
        Some(seq![])
    } else {
        match type_end(ts, i, hi, 0, 0) {
            Some(e) => if e <= i {
                None
            } else if e < hi {
                match arg_list(ts, e + 1, hi) {
                    Some(rest) => Some(seq![(i, e)] + rest),
                    None => None,
                }
            } else {
                Some(seq![(i, e)])
            },
            None => None,
        }
    }
}

/// The end of a path whose first segment ends at `i`: further `:: IDENT`
/// segments are read up to `hi`.
pub open spec fn path_end(ts: Seq<Token>, i: int, hi: int) -> int
    decreases hi - i,
{
    if 0 <= i && i + 2 < hi && i < ts.len() && ts[i].kind == TokenKind::Punct(':', true) && punct_at(
        ts,
        i + 1,
        ':',
    ) && ident_at(ts, i + 2) {
        path_end(ts, i + 3, hi)
    } else {
        i
    }
}

/// Whether the tokens from `s` to `t` are the contents of an attribute: a
/// path, alone, followed by one group, or followed by `=` and at least one
/// token.
pub open spec fn meta_ok(ts: Seq<Token>, s: int, t: int) -> bool {
    &&& s < t
    &&& ident_at(ts, s)
    &&& {
        let p = path_end(ts, s + 1, t);
        ||| p == t
        ||| (0 <= p < ts.len() && ts[p].kind is Open && group_end(ts, p + 1, 1) == Some(t))
        ||| (punct_at(ts, p, '=') && p + 1 < t)
    }
}

/// The attributes that start at `i`, as the ranges of their contents, and
/// the index after them; `None` when one is malformed.
pub open spec fn attr_list(ts: Seq<Token>, i: int, hi: int) -> Option<(Seq<(int, int)>, int)>
    decreases hi - i,
{
    if 0 <= i && i + 1 < hi && hi <= ts.len() && punct_at(ts, i, '#') && ts[i + 1].kind
        == TokenKind::Open(Delimiter::Bracket) {
        match group_end(ts, i + 2, 1) {
            Some(e) => if i + 2 < e && e <= hi && meta_ok(ts, i + 2, e - 1) {
                match attr_list(ts, e, hi) {
                    Some(rest) => Some((seq![(i + 2, e - 1)] + rest.0, rest.1)),
                    None => None,
                }
            } else {
                None
            },
            None => None,
        }
    } else {
        Some((seq![], i))
    }
}

/// One entry as the grammar reads it, by token positions: the contents of
/// each attribute, the name, each argument type and the value type.
pub struct EntryShape {
    pub attrs: Seq<(int, int)>,
    pub name: int,
    pub args: Seq<(int, int)>,
    pub value: (int, int),
}

/// The entry that starts at `i`, and the index after its closing comma.
pub open spec fn entry_at(ts: Seq<Token>, i: int, hi: int) -> Option<(EntryShape, int)> {
    match attr_list(ts, i, hi) {
        None => None,
        Some((attrs, j)) => if ident_at(ts, j) && j + 1 < hi && hi <= ts.len() && ts[j + 1].kind
            == TokenKind::Open(Delimiter::Parenthesis) {
            match group_end(ts, j + 2, 1) {
                Some(c) => if j + 2 < c && c <= hi {
                    match arg_list(ts, j + 2, c - 1) {
                        Some(args) => if arrow_at(ts, c) && c + 1 < hi {
                            match type_end(ts, c + 2, hi, 0, 0) {
                                Some(v) => if c + 2 < v && v < hi && punct_at(ts, v, ',') {
                                    Some(
                                        (
                                            EntryShape { attrs, name: j, args, value: (c + 2, v) },
                                            v + 1,
                                        ),
                                    )
                                } else {
                                    None
                                },
                                None => None,
                            }
                        } else {
                            None
                        },
                        None => None,
                    }
                } else {
                    None
                },
                None => None,
            }
        } else {
            None
        },
    }
}

/// The entries of a body whose tokens run from `i` to `hi`; `None` when the
/// body does not follow the grammar.
pub open spec fn body_from(ts: Seq<Token>, i: int, hi: int) -> Option<Seq<EntryShape>>
    decreases hi - i,
{
    if i >= hi {
        Some(seq![])
    } else {
        match entry_at(ts, i, hi) {
            Some((e, j)) => if i < j {
                match body_from(ts, j, hi) {
                    Some(rest) => Some(seq![e] + rest),
                    None => None,
                }
            } else {
                None
            },
            None => None,
        }
    }
}

/// The entries of a `storage!` body.
pub open spec fn storage_body(ts: Seq<Token>) -> Option<Seq<EntryShape>> {
    body_from(ts, 0, ts.len() as int)
}


/// One entry as the grammar reads it, by token positions.
pub struct EntryPos {
    pub attrs: Vec<(usize, usize)>,
    pub name: usize,
    pub args: Vec<(usize, usize)>,
    pub value: (usize, usize),
}

pub open spec fn ranges_view(rs: Seq<(usize, usize)>) -> Seq<(int, int)> {
    rs.map_values(|r: (usize, usize)| (r.0 as int, r.1 as int))
}

impl EntryPos {
    pub open spec fn shape(&self) -> EntryShape {
        EntryShape {
            attrs: ranges_view(self.attrs@),
            name: self.name as int,
            args: ranges_view(self.args@),
            value: (self.value.0 as int, self.value.1 as int),
        }
    }
}

pub open spec fn shapes_view(es: Seq<EntryPos>) -> Seq<EntryShape> {
    es.map_values(|e: EntryPos| e.shape())
}

fn prepend_range(v: &mut Vec<(usize, usize)>, r: (usize, usize))
    ensures
        ranges_view(final(v)@) == seq![(r.0 as int, r.1 as int)] + ranges_view(old(v)@),
{
    let ghost before = ranges_view(v@);
    v.insert(0, r);
    assert(ranges_view(v@) =~= seq![(r.0 as int, r.1 as int)] + before);
}

fn read_arg_list(ts: &Vec<Token>, i: usize, hi: usize) -> (r: Option<Vec<(usize, usize)>>)
    requires
        i <= hi <= ts.len(),
    ensures
        r matches Some(v) ==> arg_list(ts@, i as int, hi as int) == Some(ranges_view(v@)),
        r is None ==> arg_list(ts@, i as int, hi as int) is None,
    decreases hi - i,
{
    if i >= hi {
        let v: Vec<(usize, usize)> = Vec::new();
        assert(ranges_view(v@) =~= seq![]);
        return Some(v);
    }
    proof {
        lemma_type_end_bounds(ts@, i as int, hi as int, 0, 0);
    }
    match find_type_end(ts, i, hi, 0, 0) {
        Some(e) => {
            if e <= i {
                None
            } else if e < hi {
                match read_arg_list(ts, e + 1, hi) {
                    Some(rest) => {
                        let mut rest = rest;
                        prepend_range(&mut rest, (i, e));
                        Some(rest)
                    },
                    None => None,
                }
            } else {
                let mut v: Vec<(usize, usize)> = Vec::new();
                v.push((i, e));
                assert(ranges_view(v@) =~= seq![(i as int, e as int)]);
                Some(v)
            }
        },
        None => None,
    }
}

pub fn find_path_end(ts: &Vec<Token>, i: usize, hi: usize) -> (r: usize)
    requires
        i <= hi <= ts.len(),
    ensures
        r == path_end(ts@, i as int, hi as int),
        i <= r <= hi,
    decreases hi - i,
{
    if i < hi && hi - i > 2 && is_punct(ts, i + 1, ':') && is_ident(ts, i + 2) {
        match &ts[i].kind {
            TokenKind::Punct(c, joint) => {
                if *c == ':' && *joint {
                    return find_path_end(ts, i + 3, hi);
                }
            },
            _ => {},
        }
    }
    i
}

pub fn is_ident(ts: &Vec<Token>, i: usize) -> (r: bool)
    ensures
        r == ident_at(ts@, i as int),
{
    if i < ts.len() {
        match &ts[i].kind {
            TokenKind::Ident(_) => true,
            _ => false,
        }
    } else {
        false
    }
}

pub fn is_open(ts: &Vec<Token>, i: usize) -> (r: bool)
    ensures
        r == (0 <= i < ts.len() && ts@[i as int].kind is Open),
{
    if i < ts.len() {
        match &ts[i].kind {
            TokenKind::Open(_) => true,
            _ => false,
        }
    } else {
        false
    }
}

fn is_open_with(ts: &Vec<Token>, i: usize, d: Delimiter) -> (r: bool)
    ensures
        r == (0 <= i < ts.len() && ts@[i as int].kind == TokenKind::Open(d)),
{
    if i < ts.len() {
        match &ts[i].kind {
            TokenKind::Open(x) => *x == d,
            _ => false,
        }
    } else {
        false
    }
}

fn is_meta(ts: &Vec<Token>, s: usize, t: usize) -> (r: bool)
    requires
        s <= t <= ts.len(),
    ensures
        r == meta_ok(ts@, s as int, t as int),
{
    if s >= t || !is_ident(ts, s) {
        return false;
    }
    let p = find_path_end(ts, s + 1, t);
    if p == t {
        true
    } else if is_open(ts, p) {
        match find_group_end(ts, p + 1, 1) {
            Some(e) => e == t,
            None => false,
        }
    } else {
        is_punct(ts, p, '=') && p + 1 < t
    }
}

fn read_attrs(ts: &Vec<Token>, i: usize, hi: usize) -> (r: Option<(Vec<(usize, usize)>, usize)>)
    requires
        i <= hi <= ts.len(),
    ensures
        r matches Some((v, j)) ==> attr_list(ts@, i as int, hi as int) == Some((ranges_view(v@), j as int))
            && i <= j <= hi,
        r is None ==> attr_list(ts@, i as int, hi as int) is None,
    decreases hi - i,
{
    if i < hi && hi - i > 1 && is_punct(ts, i, '#') && is_open_with(ts, i + 1, Delimiter::Bracket) {
        proof {
            lemma_group_end_bounds(ts@, i + 2, 1);
        }
        match find_group_end(ts, i + 2, 1) {
            Some(e) => {
                if i + 2 < e && e <= hi && is_meta(ts, i + 2, e - 1) {
                    match read_attrs(ts, e, hi) {
                        Some((rest, j)) => {
                            let mut rest = rest;
                            prepend_range(&mut rest, (i + 2, e - 1));
                            Some((rest, j))
                        },
                        None => None,
                    }
                } else {
                    None
                }
            },
            None => None,
        }
    } else {
        let v: Vec<(usize, usize)> = Vec::new();
        assert(ranges_view(v@) =~= seq![]);
        Some((v, i))
    }
}

fn read_entry(ts: &Vec<Token>, i: usize, hi: usize) -> (r: Option<(EntryPos, usize)>)
    requires
        i <= hi <= ts.len(),
    ensures
        r matches Some((e, j)) ==> entry_at(ts@, i as int, hi as int) == Some((e.shape(), j as int))
            && j <= hi,
        r is None ==> entry_at(ts@, i as int, hi as int) is None,
{
    let (attrs, j) = match read_attrs(ts, i, hi) {
        Some(x) => x,
        None => {
            return None;
        },
    };
    if !(is_ident(ts, j) && j + 1 < hi && is_open_with(ts, j + 1, Delimiter::Parenthesis)) {
        return None;
    }
    proof {
        lemma_group_end_bounds(ts@, j + 2, 1);
    }
    let c = match find_group_end(ts, j + 2, 1) {
        Some(c) => c,
        None => {
            return None;
        },
    };
    if !(j + 2 < c && c <= hi) {
        return None;
    }
    let args = match read_arg_list(ts, j + 2, c - 1) {
        Some(a) => a,
        None => {
            return None;
        },
    };
    if !(is_arrow(ts, c) && c + 1 < hi) {
        return None;
    }
    proof {
        lemma_type_end_bounds(ts@, c + 2, hi as int, 0, 0);
    }
    let v = match find_type_end(ts, c + 2, hi, 0, 0) {
        Some(v) => v,
        None => {
            return None;
        },
    };
    if !(c + 2 < v && v < hi && is_punct(ts, v, ',')) {
        return None;
    }
    let e = EntryPos { attrs, name: j, args, value: (c + 2, v) };
    Some((e, v + 1))
}

fn read_body(ts: &Vec<Token>, i: usize, hi: usize) -> (r: Option<Vec<EntryPos>>)
    requires
        i <= hi <= ts.len(),
    ensures
        r matches Some(v) ==> body_from(ts@, i as int, hi as int) == Some(shapes_view(v@)),
        r is None ==> body_from(ts@, i as int, hi as int) is None,
    decreases hi - i,
{
    if i >= hi {
        let v: Vec<EntryPos> = Vec::new();
        assert(shapes_view(v@) =~= seq![]);
        return Some(v);
    }
    match read_entry(ts, i, hi) {
        Some((e, j)) => {
            if i < j {
                match read_body(ts, j, hi) {
                    Some(rest) => {
                        let mut rest = rest;
                        let ghost before = shapes_view(rest@);
                        let ghost sh = e.shape();
                        rest.insert(0, e);
                        assert(shapes_view(rest@) =~= seq![sh] + before);
                        Some(rest)
                    },
                    None => None,
                }
            } else {
                None
            }
        },
        None => None,
    }
}

/// The entries of a `storage!` body, by token positions; `None` when the
/// body does not follow the grammar.
pub fn storage_entries(ts: &Vec<Token>) -> (r: Option<Vec<EntryPos>>)
    ensures
        r matches Some(v) ==> storage_body(ts@) == Some(shapes_view(v@)),
        r is None ==> storage_body(ts@) is None,
{
    read_body(ts, 0, ts.len())
}


/// The text of a delimiter's opening token.
pub open spec fn open_text(d: Delimiter) -> Seq<char> {
    match d {
        Delimiter::Parenthesis => seq!['('],
        Delimiter::Bracket => seq!['['],
        Delimiter::Brace => seq!['{'],
        Delimiter::Invisible => seq![],
    }
}

/// The text of a delimiter's closing token.
pub open spec fn close_text(d: Delimiter) -> Seq<char> {
    match d {
        Delimiter::Parenthesis => seq![')'],
        Delimiter::Bracket => seq![']'],
        Delimiter::Brace => seq!['}'],
        Delimiter::Invisible => seq![],
    }
}

/// The text of a token, as written.
pub open spec fn token_text(t: Token) -> Seq<char> {
    match t.kind {
        TokenKind::Ident(s) => s@,
        TokenKind::Punct(c, _) => seq![c],
        TokenKind::Literal(s) => s@,
        TokenKind::Open(d) => open_text(d),
        TokenKind::Close(d) => close_text(d),
    }
}

/// The text of the tokens from `a` to `b`: each token as written, one space
/// between two tokens unless the first is punctuation joined to the next.
pub open spec fn tokens_text(ts: Seq<Token>, a: int, b: int) -> Seq<char>
    decreases b - a,
{
    if a >= b {
        seq![]
    } else if a + 1 == b {
        token_text(ts[a])
    } else {
        token_text(ts[a]) + (if ts[a].kind matches TokenKind::Punct(_, true) {
            seq![]
        } else {
            seq![' ']
        }) + tokens_text(ts, a + 1, b)
    }
}

fn delimiter_text(d: Delimiter, open: bool) -> (r: String)
    ensures
        r@ == (if open {
            open_text(d)
        } else {
            close_text(d)
        }),
{
    let mut s = String::new();
    match d {
        Delimiter::Parenthesis => push_char(&mut s, if open { '(' } else { ')' }),
        Delimiter::Bracket => push_char(&mut s, if open { '[' } else { ']' }),
        Delimiter::Brace => push_char(&mut s, if open { '{' } else { '}' }),
        Delimiter::Invisible => {},
    }
    proof {
        assert(s@ =~= (if open { open_text(d) } else { close_text(d) }));
    }
    s
}

fn token_string(t: &Token) -> (r: String)
    ensures
        r@ == token_text(*t),
{
    match &t.kind {
        TokenKind::Ident(s) => s.clone(),
        TokenKind::Punct(c, _) => {
            let mut s = String::new();
            push_char(&mut s, *c);
            proof {
                assert(s@ =~= seq![*c]);
            }
            s
        },
        TokenKind::Literal(s) => s.clone(),
        TokenKind::Open(d) => delimiter_text(*d, true),
        TokenKind::Close(d) => delimiter_text(*d, false),
    }
}

/// `tokens_text`, computed.
pub fn tokens_string(ts: &Vec<Token>, a: usize, b: usize) -> (r: String)
    requires
        a <= b <= ts.len(),
    ensures
        r@ == tokens_text(ts@, a as int, b as int),
    decreases b - a,
{
    if a >= b {
        return String::new();
    }
    let mut s = token_string(&ts[a]);
    if a + 1 < b {
        let joined = match &ts[a].kind {
            TokenKind::Punct(_, j) => *j,
            _ => false,
        };
        if !joined {
            push_char(&mut s, ' ');
        }
        let rest = tokens_string(ts, a + 1, b);
        s.append(rest.as_str());
    }
    s
}


/// Whether every range of `rs` lies within the tokens.
pub open spec fn ranges_ok(ts: Seq<Token>, rs: Seq<(int, int)>) -> bool {
    forall|k: int| 0 <= k < rs.len() ==> 0 <= (#[trigger] rs[k]).0 <= rs[k].1 <= ts.len()
}

/// Whether an entry's positions lie within the tokens and its name is an
/// identifier.
pub open spec fn shape_ok(ts: Seq<Token>, e: EntryShape) -> bool {
    &&& ident_at(ts, e.name)
    &&& 0 <= e.value.0 <= e.value.1 <= ts.len()
    &&& ranges_ok(ts, e.attrs)
    &&& ranges_ok(ts, e.args)
}

proof fn lemma_arg_list_ok(ts: Seq<Token>, i: int, hi: int)
    requires
        0 <= i,
        hi <= ts.len(),
    ensures
        arg_list(ts, i, hi) matches Some(rs) ==> ranges_ok(ts, rs),
    decreases hi - i,
{
    if i < hi {
        lemma_type_end_bounds(ts, i, hi, 0, 0);
        if let Some(e) = type_end(ts, i, hi, 0, 0) {
            if e > i && e < hi {
                lemma_arg_list_ok(ts, e + 1, hi);
                if let Some(rest) = arg_list(ts, e + 1, hi) {
                    let rs = seq![(i, e)] + rest;
                    assert forall|k: int| 0 <= k < rs.len() implies 0 <= (#[trigger] rs[k]).0 <= rs[k].1
                        <= ts.len() by {
                        if k > 0 {
                            assert(rs[k] == rest[k - 1]);
                        }
                    }
                }
            }
        }
    }
}

proof fn lemma_attr_list_ok(ts: Seq<Token>, i: int, hi: int)
    requires
        0 <= i <= hi,
        hi <= ts.len(),
    ensures
        attr_list(ts, i, hi) matches Some((rs, j)) ==> ranges_ok(ts, rs) && i <= j <= hi,
    decreases hi - i,
{
    if 0 <= i && i + 1 < hi && hi <= ts.len() && punct_at(ts, i, '#') && ts[i + 1].kind
        == TokenKind::Open(Delimiter::Bracket) {
        if let Some(e) = group_end(ts, i + 2, 1) {
            if i + 2 < e && e <= hi && meta_ok(ts, i + 2, e - 1) {
                lemma_attr_list_ok(ts, e, hi);
                if let Some(rest) = attr_list(ts, e, hi) {
                    let rs = seq![(i + 2, e - 1)] + rest.0;
                    assert forall|k: int| 0 <= k < rs.len() implies 0 <= (#[trigger] rs[k]).0 <= rs[k].1
                        <= ts.len() by {
                        if k > 0 {
                            assert(rs[k] == rest.0[k - 1]);
                        }
                    }
                }
            }
        }
    } else {
        assert(ranges_ok(ts, Seq::<(int, int)>::empty()));
    }
}

proof fn lemma_entry_ok(ts: Seq<Token>, i: int, hi: int)
    requires
        0 <= i <= hi,
        hi <= ts.len(),
    ensures
        entry_at(ts, i, hi) matches Some((e, j)) ==> shape_ok(ts, e) && j <= hi,
{
    lemma_attr_list_ok(ts, i, hi);
    if let Some((attrs, j)) = attr_list(ts, i, hi) {
        if let Some(c) = group_end(ts, j + 2, 1) {
            if j + 2 < c && c <= hi {
                lemma_arg_list_ok(ts, j + 2, c - 1);
                lemma_type_end_bounds(ts, c + 2, hi, 0, 0);
            }
        }
    }
}

proof fn lemma_body_ok(ts: Seq<Token>, i: int, hi: int)
    requires
        0 <= i,
        hi <= ts.len(),
    ensures
        body_from(ts, i, hi) matches Some(es) ==> forall|k: int| 0 <= k < es.len() ==> shape_ok(ts, #[trigger] es[k]),
    decreases hi - i,
{
    if i < hi {
        lemma_entry_ok(ts, i, hi);
        if let Some((e, j)) = entry_at(ts, i, hi) {
            if i < j {
                lemma_body_ok(ts, j, hi);
                if let Some(rest) = body_from(ts, j, hi) {
                    let es = seq![e] + rest;
                    assert forall|k: int| 0 <= k < es.len() implies shape_ok(ts, #[trigger] es[k]) by {
                        if k > 0 {
                            assert(es[k] == rest[k - 1]);
                        }
                    }
                }
            }
        }
    }
}

/// Every entry of a body that follows the grammar lies within its tokens.
pub proof fn lemma_body_entries_in_bounds(ts: Seq<Token>, es: Seq<EntryShape>, k: int)
    requires
        storage_body(ts) == Some(es),
        0 <= k < es.len(),
    ensures
        shape_ok(ts, es[k]),
{
    lemma_body_ok(ts, 0, ts.len() as int);
    let es2 = body_from(ts, 0, ts.len() as int)->Some_0;
    assert(es2 == es);
    assert(shape_ok(ts, es2[k]));
}

/// The end of an expression that starts at `i` and may run to `hi`: the
/// first comma outside every group, or `hi`.
pub open spec fn expr_end(ts: Seq<Token>, i: int, hi: int, depth: nat) -> Option<int>
    decreases hi - i,
{
    if i >= hi {
        if depth == 0 {
            Some(hi)
        } else {
            None
        }
    } else if depth == 0 && punct_at(ts, i, ',') {
        Some(i)
    } else if ts[i].kind is Open {
        expr_end(ts, i + 1, hi, depth + 1)
    } else if ts[i].kind is Close {
        if depth == 0 {
            None
        } else {
            expr_end(ts, i + 1, hi, (depth - 1) as nat)
        }
    } else {
        expr_end(ts, i + 1, hi, depth)
    }
}

pub proof fn lemma_expr_end_bounds(ts: Seq<Token>, i: int, hi: int, depth: nat)
    requires
        i <= hi,
    ensures
        expr_end(ts, i, hi, depth) matches Some(k) ==> i <= k <= hi,
    decreases hi - i,
{
    if i < hi {
        if depth == 0 && punct_at(ts, i, ',') {
        } else if ts[i].kind is Open {
            lemma_expr_end_bounds(ts, i + 1, hi, depth + 1);
        } else if ts[i].kind is Close {
            if depth > 0 {
                lemma_expr_end_bounds(ts, i + 1, hi, (depth - 1) as nat);
            }
        } else {
            lemma_expr_end_bounds(ts, i + 1, hi, depth);
        }
    }
}

pub fn find_expr_end(ts: &Vec<Token>, i: usize, hi: usize, depth: usize) -> (r: Option<usize>)
    requires
        i <= hi <= ts.len(),
        depth <= i,
    ensures
        r matches Some(k) ==> expr_end(ts@, i as int, hi as int, depth as nat) == Some(k as int),
        r is None ==> expr_end(ts@, i as int, hi as int, depth as nat) is None,
    decreases hi - i,
{
    if i >= hi {
        if depth == 0 {
            Some(hi)
        } else {
            None
        }
    } else if depth == 0 && is_punct(ts, i, ',') {
        Some(i)
    } else {
        match &ts[i].kind {
            TokenKind::Open(_) => find_expr_end(ts, i + 1, hi, depth + 1),
            TokenKind::Close(_) => {
                if depth == 0 {
                    None
                } else {
                    find_expr_end(ts, i + 1, hi, depth - 1)
                }
            },
            _ => find_expr_end(ts, i + 1, hi, depth),
        }
    }
}

} // verus!
