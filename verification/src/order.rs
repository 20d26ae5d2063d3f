//! The order the linter reports in: files by path, findings by path, then
//! line, then column. Paths compare as `std::path::Path` compares them on
//! Unix: component by component, the root before `.` before `..` before
//! names, names character by character (which is the order of their UTF-8
//! bytes).

use vstd::prelude::*;
use crate::text::chars_of;

verus! {

/// A component of a path.
pub enum PathPart {
    /// The leading `/`.
    Root,
    /// A leading `.`.
    Current,
    /// `..`.
    Parent,
    /// Any other name.
    Name(Seq<char>),
}

/// The pieces of a text between `/` separators, in order.
pub open spec fn split_slash(p: Seq<char>) -> Seq<Seq<char>>
    decreases p.len(),
{
    if p.len() == 0 {
        seq![seq![]]
    } else {
        let s = split_slash(p.drop_last());
        if p.last() == '/' {
            s.push(seq![])
        } else {
            s.update(s.len() - 1, s.last().push(p.last()))
        }
    }
}

/// The components that the pieces from the second on give: empty pieces
/// and `.` are dropped, `..` is the parent.
pub open spec fn inner_parts(segs: Seq<Seq<char>>) -> Seq<PathPart>
    decreases segs.len(),
{
    if segs.len() == 0 {
        seq![]
    } else {
        let rest = inner_parts(segs.drop_last());
        let s = segs.last();
        if s.len() == 0 || s == seq!['.'] {
            rest
        } else if s == seq!['.', '.'] {
            rest.push(PathPart::Parent)
        } else {
            rest.push(PathPart::Name(s))
        }
    }
}

/// The components of a path: the root when it starts with `/`, a leading
/// `.` when a relative path starts with it, then the other pieces.
pub open spec fn path_parts(p: Seq<char>) -> Seq<PathPart> {
    let segs = split_slash(p);
    if p.len() > 0 && p[0] == '/' {
        seq![PathPart::Root] + inner_parts(segs.drop_first())
    } else if segs[0] == seq!['.'] {
        seq![PathPart::Current] + inner_parts(segs.drop_first())
    } else {
        inner_parts(segs)
    }
}

/// Whether `a` comes before `b`, character by character.
pub open spec fn chars_lt(a: Seq<char>, b: Seq<char>) -> bool
    decreases a.len(),
{
    if a.len() == 0 {
        b.len() > 0
    } else if b.len() == 0 {
        false
    } else if a[0] != b[0] {
        a[0] < b[0]
    } else {
        chars_lt(a.drop_first(), b.drop_first())
    }
}

pub open spec fn part_rank(p: PathPart) -> int {
    match p {
        PathPart::Root => 0,
        PathPart::Current => 1,
        PathPart::Parent => 2,
        PathPart::Name(_) => 3,
    }
}

pub open spec fn part_lt(a: PathPart, b: PathPart) -> bool {
    part_rank(a) < part_rank(b) || (a matches PathPart::Name(x) && b matches PathPart::Name(y) && chars_lt(x, y))
}

/// Whether path `a` comes before path `b`, component by component.
pub open spec fn parts_lt(a: Seq<PathPart>, b: Seq<PathPart>) -> bool
    decreases a.len(),
{
    if a.len() == 0 {
        b.len() > 0
    } else if b.len() == 0 {
        false
    } else if a[0] != b[0] {
        part_lt(a[0], b[0])
    } else {
        parts_lt(a.drop_first(), b.drop_first())
    }
}

/// A place: a path's components, a line and a column.
pub open spec fn place_lt(a: (Seq<PathPart>, usize, usize), b: (Seq<PathPart>, usize, usize)) -> bool {
    ||| parts_lt(a.0, b.0)
    ||| (a.0 == b.0 && a.1 < b.1)
    ||| (a.0 == b.0 && a.1 == b.1 && a.2 < b.2)
}

/// The place of the `i`-th entry.
pub open spec fn place_of(paths: Seq<String>, lines: Seq<usize>, columns: Seq<usize>, i: int) -> (Seq<PathPart>, usize, usize) {
    (path_parts(paths[i]@), lines[i], columns[i])
}

/// Whether entry `i` comes before entry `j`: by place, and by position
/// among equal places (so the order is stable).
pub open spec fn entry_lt(paths: Seq<String>, lines: Seq<usize>, columns: Seq<usize>, i: int, j: int) -> bool {
    let a = place_of(paths, lines, columns, i);
    let b = place_of(paths, lines, columns, j);
    place_lt(a, b) || (a == b && i < j)
}


/// A component of a path, computed.
pub enum Part {
    Root,
    Current,
    Parent,
    Name(Vec<char>),
}

pub open spec fn part_view(p: Part) -> PathPart {
    match p {
        Part::Root => PathPart::Root,
        Part::Current => PathPart::Current,
        Part::Parent => PathPart::Parent,
        Part::Name(v) => PathPart::Name(v@),
    }
}

pub open spec fn parts_view(ps: Seq<Part>) -> Seq<PathPart> {
    ps.map_values(|p: Part| part_view(p))
}

pub open spec fn segs_view(ss: Seq<Vec<char>>) -> Seq<Seq<char>> {
    ss.map_values(|v: Vec<char>| v@)
}

proof fn lemma_split_nonempty(p: Seq<char>)
    ensures
        split_slash(p).len() >= 1,
    decreases p.len(),
{
    if p.len() > 0 {
        lemma_split_nonempty(p.drop_last());
    }
}

fn split_on_slash(p: &Vec<char>) -> (r: Vec<Vec<char>>)
    ensures
        segs_view(r@) == split_slash(p@),
        r.len() >= 1,
{
    let mut segs: Vec<Vec<char>> = Vec::new();
    segs.push(Vec::new());
    assert(segs_view(segs@) =~= split_slash(p@.take(0)));
    let mut i: usize = 0;
    while i < p.len()
        invariant
            i <= p.len(),
            segs.len() >= 1,
            segs_view(segs@) == split_slash(p@.take(i as int)),
        decreases p.len() - i,
    {
        proof {
            assert(p@.take(i + 1).drop_last() =~= p@.take(i as int));
            assert(p@.take(i + 1).last() == p@[i as int]);
        }
        let c = p[i];
        let ghost before = segs_view(segs@);
        if c == '/' {
            segs.push(Vec::new());
            assert(segs_view(segs@) =~= before.push(seq![]));
        } else {
            let mut last = segs.pop().unwrap();
            let ghost lv = last@;
            last.push(c);
            segs.push(last);
            assert(segs_view(segs@) =~= before.update(before.len() - 1, lv.push(c)));
        }
        i = i + 1;
    }
    assert(p@.take(p.len() as int) =~= p@);
    segs
}

fn is_dot(s: &Vec<char>) -> (r: bool)
    ensures
        r == (s@ == seq!['.']),
{
    let r = s.len() == 1 && s[0] == '.';
    proof {
        if r {
            assert(s@ =~= seq!['.']);
        }
    }
    r
}

fn is_dot_dot(s: &Vec<char>) -> (r: bool)
    ensures
        r == (s@ == seq!['.', '.']),
{
    let r = s.len() == 2 && s[0] == '.' && s[1] == '.';
    proof {
        if r {
            assert(s@ =~= seq!['.', '.']);
        }
    }
    r
}

fn copy_chars(v: &Vec<char>) -> (r: Vec<char>)
    ensures
        r@ == v@,
{
    let mut out: Vec<char> = Vec::new();
    let mut i: usize = 0;
    while i < v.len()
        invariant
            i <= v.len(),
            out@ == v@.take(i as int),
        decreases v.len() - i,
    {
        out.push(v[i]);
        i = i + 1;
        assert(out@ =~= v@.take(i as int));
    }
    assert(v@.take(v.len() as int) =~= v@);
    out
}

/// The components of a path.
pub fn parts_of(path: &str) -> (r: Vec<Part>)
    ensures
        parts_view(r@) == path_parts(path@),
{
    let cs = chars_of(path);
    let segs = split_on_slash(&cs);
    let ghost sv = segs_view(segs@);
    let mut out: Vec<Part> = Vec::new();
    let start: usize;
    if cs.len() > 0 && cs[0] == '/' {
        out.push(Part::Root);
        start = 1;
    } else if is_dot(&segs[0]) {
        out.push(Part::Current);
        start = 1;
    } else {
        start = 0;
    }
    let ghost head = parts_view(out@);
    proof {
        assert(sv.skip(start as int).take(0) =~= Seq::<Seq<char>>::empty());
        assert(head + inner_parts(sv.skip(start as int).take(0)) =~= head);
    }
    let mut k: usize = start;
    while k < segs.len()
        invariant
            start <= k <= segs.len(),
            sv == segs_view(segs@),
            parts_view(out@) == head + inner_parts(sv.skip(start as int).take(k - start)),
        decreases segs.len() - k,
    {
        let ghost rest = sv.skip(start as int);
        proof {
            assert(rest.take(k - start + 1).drop_last() =~= rest.take(k - start));
            assert(rest.take(k - start + 1).last() == segs@[k as int]@);
        }
        let s = &segs[k];
        let ghost before = parts_view(out@);
        if s.len() == 0 || is_dot(s) {
        } else if is_dot_dot(s) {
            out.push(Part::Parent);
            assert(parts_view(out@) =~= before.push(PathPart::Parent));
        } else {
            out.push(Part::Name(copy_chars(s)));
            assert(parts_view(out@) =~= before.push(PathPart::Name(s@)));
        }
        k = k + 1;
    }
    proof {
        assert(sv.skip(start as int).take(segs.len() - start) =~= sv.skip(start as int));
        if start == 1 {
            assert(sv.skip(1) =~= sv.drop_first());
        } else {
            assert(sv.skip(0) =~= sv);
        }
    }
    out
}

fn chars_less(a: &Vec<char>, b: &Vec<char>) -> (r: bool)
    ensures
        r == chars_lt(a@, b@),
{
    let mut i: usize = 0;
    assert(a@.skip(0) =~= a@);
    assert(b@.skip(0) =~= b@);
    while i < a.len() && i < b.len()
        invariant
            i <= a.len(),
            i <= b.len(),
            chars_lt(a@, b@) == chars_lt(a@.skip(i as int), b@.skip(i as int)),
        decreases a.len() - i,
    {
        if a[i] != b[i] {
            return a[i] < b[i];
        }
        proof {
            assert(a@.skip(i as int).drop_first() =~= a@.skip(i + 1));
            assert(b@.skip(i as int).drop_first() =~= b@.skip(i + 1));
        }
        i = i + 1;
    }
    i == a.len() && i < b.len()
}

fn part_less(a: &Part, b: &Part) -> (r: bool)
    ensures
        r == part_lt(part_view(*a), part_view(*b)),
{
    match (a, b) {
        (Part::Name(x), Part::Name(y)) => chars_less(x, y),
        _ => {
            let ra: u8 = match a {
                Part::Root => 0,
                Part::Current => 1,
                Part::Parent => 2,
                Part::Name(_) => 3,
            };
            let rb: u8 = match b {
                Part::Root => 0,
                Part::Current => 1,
                Part::Parent => 2,
                Part::Name(_) => 3,
            };
            ra < rb
        },
    }
}

fn part_equal(a: &Part, b: &Part) -> (r: bool)
    ensures
        r == (part_view(*a) == part_view(*b)),
{
    match (a, b) {
        (Part::Root, Part::Root) => true,
        (Part::Current, Part::Current) => true,
        (Part::Parent, Part::Parent) => true,
        (Part::Name(x), Part::Name(y)) => {
            if x.len() != y.len() {
                assert(x@.len() != y@.len());
                return false;
            }
            let mut i: usize = 0;
            while i < x.len()
                invariant
                    i <= x.len(),
                    x.len() == y.len(),
                    part_view(*a) == PathPart::Name(x@),
                    part_view(*b) == PathPart::Name(y@),
                    forall|j: int| 0 <= j < i ==> x@[j] == y@[j],
                decreases x.len() - i,
            {
                if x[i] != y[i] {
                    assert(x@[i as int] != y@[i as int]);
                    return false;
                }
                i = i + 1;
            }
            assert(x@ =~= y@);
            true
        },
        _ => false,
    }
}

/// Whether two component lists are equal, and whether the first comes
/// before the second.
fn compare_parts(a: &Vec<Part>, b: &Vec<Part>) -> (r: (bool, bool))
    ensures
        r.0 == (parts_view(a@) == parts_view(b@)),
        r.1 == parts_lt(parts_view(a@), parts_view(b@)),
{
    let ghost av = parts_view(a@);
    let ghost bv = parts_view(b@);
    let mut i: usize = 0;
    assert(av.skip(0) =~= av);
    assert(bv.skip(0) =~= bv);
    assert(av.take(0) =~= bv.take(0));
    while i < a.len() && i < b.len()
        invariant
            i <= a.len(),
            i <= b.len(),
            av == parts_view(a@),
            bv == parts_view(b@),
            av.take(i as int) == bv.take(i as int),
            parts_lt(av, bv) == parts_lt(av.skip(i as int), bv.skip(i as int)),
        decreases a.len() - i,
    {
        if !part_equal(&a[i], &b[i]) {
            proof {
                assert(av[i as int] != bv[i as int]);
                assert(av.skip(i as int)[0] == av[i as int]);
                assert(bv.skip(i as int)[0] == bv[i as int]);
                assert(av.skip(i as int) != bv.skip(i as int) ==> av != bv);
                assert(av != bv) by {
                    assert(av[i as int] != bv[i as int]);
                }
            }
            return (false, part_less(&a[i], &b[i]));
        }
        proof {
            assert(av.skip(i as int).drop_first() =~= av.skip(i + 1));
            assert(bv.skip(i as int).drop_first() =~= bv.skip(i + 1));
            assert(av.take(i + 1) =~= av.take(i as int).push(av[i as int]));
            assert(bv.take(i + 1) =~= bv.take(i as int).push(bv[i as int]));
        }
        i = i + 1;
    }
    proof {
        if a.len() == b.len() {
            assert(av =~= av.take(i as int));
            assert(bv =~= bv.take(i as int));
        } else if i == a.len() {
            assert(av.len() != bv.len());
        } else {
            assert(av.len() != bv.len());
        }
    }
    (a.len() == b.len(), i == a.len() && i < b.len())
}


proof fn lemma_chars_total(a: Seq<char>, b: Seq<char>)
    ensures
        a != b ==> chars_lt(a, b) || chars_lt(b, a),
    decreases a.len(),
{
    if a.len() > 0 && b.len() > 0 && a[0] == b[0] {
        lemma_chars_total(a.drop_first(), b.drop_first());
        if a.drop_first() == b.drop_first() {
            assert(a =~= seq![a[0]] + a.drop_first());
            assert(b =~= seq![b[0]] + b.drop_first());
        }
    } else if a.len() == 0 && b.len() == 0 {
        assert(a =~= b);
    }
}

proof fn lemma_part_total(a: PathPart, b: PathPart)
    ensures
        a != b ==> part_lt(a, b) || part_lt(b, a),
{
    if let PathPart::Name(x) = a {
        if let PathPart::Name(y) = b {
            lemma_chars_total(x, y);
        }
    }
}

proof fn lemma_parts_total(a: Seq<PathPart>, b: Seq<PathPart>)
    ensures
        a != b ==> parts_lt(a, b) || parts_lt(b, a),
    decreases a.len(),
{
    if a.len() > 0 && b.len() > 0 {
        if a[0] != b[0] {
            lemma_part_total(a[0], b[0]);
        } else {
            lemma_parts_total(a.drop_first(), b.drop_first());
            if a.drop_first() == b.drop_first() {
                assert(a =~= seq![a[0]] + a.drop_first());
                assert(b =~= seq![b[0]] + b.drop_first());
            }
        }
    } else if a.len() == 0 && b.len() == 0 {
        assert(a =~= b);
    }
}

/// Whether `j` is among `r`.
pub open spec fn appears(r: Seq<usize>, j: int) -> bool {
    exists|k: int| 0 <= k < r.len() && r[k] == j
}

/// The place of the `i`-th of some places.
pub open spec fn place_at(places: Seq<(String, usize, usize)>, i: int) -> (Seq<PathPart>, usize, usize) {
    (path_parts(places[i].0@), places[i].1, places[i].2)
}

/// Whether place `i` comes before place `j`: by place, and by position
/// among equal places (so the order is stable).
pub open spec fn ordered(places: Seq<(String, usize, usize)>, i: int, j: int) -> bool {
    place_lt(place_at(places, i), place_at(places, j)) || (place_at(places, i) == place_at(places, j) && i < j)
}

fn place_less(a: &(Vec<Part>, usize, usize), b: &(Vec<Part>, usize, usize)) -> (r: bool)
    ensures
        r == place_lt((parts_view(a.0@), a.1, a.2), (parts_view(b.0@), b.1, b.2)),
{
    let (eq, lt) = compare_parts(&a.0, &b.0);
    lt || (eq && a.1 < b.1) || (eq && a.1 == b.1 && a.2 < b.2)
}

/// The order to report in: every index of `places` once, each place before
/// the next in the order (by path, line and column, and by index among
/// equal places).
pub fn report_order(places: &Vec<(String, usize, usize)>) -> (r: Vec<usize>)
    ensures
        r.len() == places.len(),
        forall|k: int| 0 <= k < r.len() ==> r@[k] < places.len(),
        forall|j: int| 0 <= j < places.len() ==> #[trigger] appears(r@, j),
        forall|p: int, q: int| #![trigger r@[p], r@[q]] 0 <= p && q == p + 1 && q < r.len() ==> ordered(places@, r@[p] as int, r@[q] as int),
{
    let mut keys: Vec<(Vec<Part>, usize, usize)> = Vec::new();
    let mut i: usize = 0;
    while i < places.len()
        invariant
            i <= places.len(),
            keys.len() == i,
            forall|k: int|
                0 <= k < i ==> (parts_view((#[trigger] keys@[k]).0@), keys@[k].1, keys@[k].2) == place_at(places@, k),
        decreases places.len() - i,
    {
        let (p, l, c) = &places[i];
        keys.push((parts_of(p.as_str()), *l, *c));
        i = i + 1;
    }
    let mut out: Vec<usize> = Vec::new();
    let mut i: usize = 0;
    while i < places.len()
        invariant
            i <= places.len(),
            keys.len() == places.len(),
            forall|k: int|
                0 <= k < places.len() ==> (parts_view((#[trigger] keys@[k]).0@), keys@[k].1, keys@[k].2) == place_at(places@, k),
            out.len() == i,
            forall|k: int| 0 <= k < out.len() ==> out@[k] < i,
            forall|j: int| 0 <= j < i ==> #[trigger] appears(out@, j),
            forall|p: int, q: int| #![trigger out@[p], out@[q]] 0 <= p && q == p + 1 && q < out.len() ==> ordered(places@, out@[p] as int, out@[q] as int),
        decreases places.len() - i,
    {
        let mut pos: usize = 0;
        let mut before_next = true;
        while pos < out.len() && before_next
            invariant
                pos <= out.len(),
                i < places.len(),
                keys.len() == places.len(),
                forall|k: int| 0 <= k < out.len() ==> out@[k] < i,
                forall|k: int|
                    0 <= k < places.len() ==> (parts_view((#[trigger] keys@[k]).0@), keys@[k].1, keys@[k].2) == place_at(places@, k),
                forall|k: int| 0 <= k < pos ==> !place_lt(place_at(places@, i as int), place_at(places@, #[trigger] out@[k] as int)),
                !before_next ==> pos < out.len() && place_lt(place_at(places@, i as int), place_at(places@, out@[pos as int] as int)),
            decreases out.len() - pos, before_next as int,
        {
            if place_less(&keys[i], &keys[out[pos]]) {
                before_next = false;
            } else {
                pos = pos + 1;
            }
        }
        let ghost old_out = out@;
        out.insert(pos, i);
        proof {
            assert(out@ == old_out.insert(pos as int, i));
            assert forall|p: int, q: int| #![trigger out@[p], out@[q]] 0 <= p && q == p + 1 && q < out.len() implies ordered(places@, out@[p] as int, out@[q] as int) by {
                if q < pos {
                    assert(out@[p] == old_out[p] && out@[q] == old_out[q]);
                } else if q == pos {
                    let a = place_at(places@, old_out[p] as int);
                    let b = place_at(places@, i as int);
                    lemma_place_total(a, b);
                    assert(out@[p] == old_out[p] && out@[q] == i);
                    assert(!place_lt(b, a));
                    assert(old_out[p] < i);
                } else if p == pos {
                    assert(out@[p] == i);
                    assert(out@[q] == old_out[p]);
                    assert(place_lt(place_at(places@, i as int), place_at(places@, old_out[p] as int)));
                } else {
                    assert(out@[p] == old_out[p - 1] && out@[q] == old_out[p]);
                    assert(old_out[p - 1] == old_out[p - 1] && old_out[p] == old_out[p]);
                }
            }
            assert forall|j: int| 0 <= j < i + 1 implies #[trigger] appears(out@, j) by {
                if j == i {
                    assert(out@[pos as int] == j);
                } else {
                    assert(appears(old_out, j));
                    let k = choose|k: int| 0 <= k < old_out.len() && old_out[k] == j;
                    if k < pos {
                        assert(out@[k] == j);
                    } else {
                        assert(out@[k + 1] == j);
                    }
                }
            }
        }
        i = i + 1;
    }
    out
}

proof fn lemma_place_total(a: (Seq<PathPart>, usize, usize), b: (Seq<PathPart>, usize, usize))
    ensures
        a != b ==> place_lt(a, b) || place_lt(b, a),
{
    lemma_parts_total(a.0, b.0);
}


/// The order with each index dropped whose path has the same components as
/// the path of the index before it (as `Vec::dedup` drops equal paths).
pub open spec fn dedup_order(paths: Seq<String>, o: Seq<usize>) -> Seq<usize>
    decreases o.len(),
{
    if o.len() == 0 {
        seq![]
    } else {
        let rest = dedup_order(paths, o.drop_last());
        if o.len() >= 2 && path_parts(paths[o[o.len() - 1] as int]@) == path_parts(paths[o[o.len() - 2] as int]@) {
            rest
        } else {
            rest.push(o.last())
        }
    }
}

/// Drops from an order each index whose path equals, component by
/// component, the path of the index before it.
pub fn dedup_paths(paths: &Vec<String>, order: &Vec<usize>) -> (r: Vec<usize>)
    requires
        forall|k: int| 0 <= k < order.len() ==> order@[k] < paths.len(),
    ensures
        r@ == dedup_order(paths@, order@),
{
    let mut out: Vec<usize> = Vec::new();
    let mut prev: Vec<Part> = Vec::new();
    let mut k: usize = 0;
    while k < order.len()
        invariant
            k <= order.len(),
            forall|m: int| 0 <= m < order.len() ==> order@[m] < paths.len(),
            out@ == dedup_order(paths@, order@.take(k as int)),
            k > 0 ==> parts_view(prev@) == path_parts(paths@[order@[k - 1] as int]@),
        decreases order.len() - k,
    {
        proof {
            assert(order@.take(k + 1).drop_last() =~= order@.take(k as int));
            assert(order@.take(k + 1).last() == order@[k as int]);
            if k >= 1 {
                assert(order@.take(k + 1)[k - 1] == order@[k - 1]);
            }
        }
        let parts = parts_of(paths[order[k]].as_str());
        let same = k > 0 && compare_parts(&parts, &prev).0;
        if !same {
            out.push(order[k]);
        }
        prev = parts;
        k = k + 1;
    }
    assert(order@.take(order.len() as int) =~= order@);
    out
}

} // verus!
