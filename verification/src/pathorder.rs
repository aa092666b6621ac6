//! The order of collected paths: component by component, as `std::path::Path` compares
//! Unix paths, with paths of equal components counted once.

use vstd::prelude::*;

use std::cmp::Ordering;

use crate::text::{char_less, lemma_char_code_injective, lemma_lex_irreflexive, lemma_lex_skip, lemma_lex_total, lemma_lex_trans, lex_less};

verus! {

/// A component of a Unix path, over plain values.
pub enum Comp {
    /// The root `/` of an absolute path.
    Root,
    /// A leading `.`.
    Cur,
    /// A `..`.
    Parent,
    /// Any other non-empty name.
    Normal(Seq<char>),
}

/// The order of component kinds: root, then `.`, then `..`, then names.
pub open spec fn comp_rank(c: Comp) -> int {
    match c {
        Comp::Root => 1,
        Comp::Cur => 2,
        Comp::Parent => 3,
        Comp::Normal(_) => 4,
    }
}

/// Components are ordered by kind, and names by their characters.
pub open spec fn comp_less(a: Comp, b: Comp) -> bool {
    comp_rank(a) < comp_rank(b) || (a matches Comp::Normal(x) && b matches Comp::Normal(y)
        && lex_less(x, y))
}

/// Lexicographic order of component lists.
pub open spec fn comps_less(a: Seq<Comp>, b: Seq<Comp>) -> bool
    decreases a.len(),
{
    if b.len() == 0 {
        false
    } else if a.len() == 0 {
        true
    } else if comp_less(a[0], b[0]) {
        true
    } else if a[0] == b[0] {
        comps_less(a.drop_first(), b.drop_first())
    } else {
        false
    }
}

/// The pieces of a path between its `/` separators (an empty path has one empty piece).
pub open spec fn split_slash(p: Seq<char>) -> Seq<Seq<char>>
    decreases p.len(),
{
    if p.len() == 0 {
        seq![Seq::<char>::empty()]
    } else {
        let init = split_slash(p.drop_last());
        if p.last() == '/' {
            init.push(Seq::<char>::empty())
        } else {
            init.update(init.len() - 1, init.last().push(p.last()))
        }
    }
}

/// The component of an inner piece: empty pieces and `.` give none, `..` is the parent.
pub open spec fn piece_comps(piece: Seq<char>) -> Seq<Comp> {
    if piece.len() == 0 || piece == seq!['.'] {
        Seq::<Comp>::empty()
    } else if piece == seq!['.', '.'] {
        seq![Comp::Parent]
    } else {
        seq![Comp::Normal(piece)]
    }
}

/// The components of a list of inner pieces.
pub open spec fn comps_of_pieces(qs: Seq<Seq<char>>) -> Seq<Comp>
    decreases qs.len(),
{
    if qs.len() == 0 {
        Seq::<Comp>::empty()
    } else {
        comps_of_pieces(qs.drop_last()) + piece_comps(qs.last())
    }
}

/// The components of the first piece when a `/` follows it: an empty first piece is the
/// root, a `.` is kept as the current directory.
pub open spec fn head_comps(piece: Seq<char>) -> Seq<Comp> {
    if piece.len() == 0 {
        seq![Comp::Root]
    } else if piece == seq!['.'] {
        seq![Comp::Cur]
    } else {
        piece_comps(piece)
    }
}

/// The components of a path without `/`.
pub open spec fn lone_comps(piece: Seq<char>) -> Seq<Comp> {
    if piece == seq!['.'] {
        seq![Comp::Cur]
    } else {
        piece_comps(piece)
    }
}

/// The components of the pieces before the last `/`.
pub open spec fn comps_prefix(done: Seq<Seq<char>>) -> Seq<Comp> {
    if done.len() == 0 {
        Seq::<Comp>::empty()
    } else {
        head_comps(done[0]) + comps_of_pieces(done.drop_first())
    }
}

/// The components of a Unix path as `std::path::Path::components` gives them: the root of an
/// absolute path, a leading `.`, then every `..` and name, with empty and `.` pieces dropped.
pub open spec fn components(p: Seq<char>) -> Seq<Comp> {
    let ps = split_slash(p);
    if ps.len() == 1 {
        lone_comps(ps[0])
    } else {
        comps_prefix(ps.drop_last()) + piece_comps(ps.last())
    }
}

/// A path component.
#[derive(Debug, Clone)]
pub enum PathComp {
    /// The root `/`.
    Root,
    /// A leading `.`.
    Cur,
    /// A `..`.
    Parent,
    /// A name.
    Normal(Vec<char>),
}

/// The plain value of a component.
pub open spec fn comp_view(c: PathComp) -> Comp {
    match c {
        PathComp::Root => Comp::Root,
        PathComp::Cur => Comp::Cur,
        PathComp::Parent => Comp::Parent,
        PathComp::Normal(t) => Comp::Normal(t@),
    }
}

/// The plain values of components.
pub open spec fn comps_view(v: Seq<PathComp>) -> Seq<Comp> {
    v.map_values(|c: PathComp| comp_view(c))
}

proof fn lemma_comps_prefix_push(done: Seq<Seq<char>>, x: Seq<char>)
    ensures
        comps_prefix(done.push(x)) == comps_prefix(done) + (if done.len() == 0 {
            head_comps(x)
        } else {
            piece_comps(x)
        }),
{
    if done.len() > 0 {
        assert(done.push(x).drop_first() =~= done.drop_first().push(x));
        assert(done.push(x).drop_first().drop_last() =~= done.drop_first());
        assert(comps_prefix(done.push(x)) =~= comps_prefix(done) + piece_comps(x));
    } else {
        assert(done.push(x).drop_first() =~= Seq::<Seq<char>>::empty());
        assert(comps_prefix(done.push(x)) =~= head_comps(x));
    }
}

/// The components of one piece, as the piece after a `/` (`first` is off) or as the first
/// piece before a `/` (`first` is on).
fn piece_components(piece: Vec<char>, first: bool, comps: &mut Vec<PathComp>)
    ensures
        comps_view(final(comps)@) == comps_view(old(comps)@) + (if first {
            head_comps(piece@)
        } else {
            piece_comps(piece@)
        }),
{
    let ghost before = comps_view(comps@);
    let n = piece.len();
    if n == 0 {
        if first {
            comps.push(PathComp::Root);
            assert(comps_view(comps@) =~= before + head_comps(piece@));
        } else {
            assert(comps_view(comps@) =~= before + piece_comps(piece@));
        }
        return;
    }
    if n == 1 && piece[0] == '.' {
        assert(piece@ =~= seq!['.']);
        if first {
            comps.push(PathComp::Cur);
            assert(comps_view(comps@) =~= before + head_comps(piece@));
        } else {
            assert(comps_view(comps@) =~= before + piece_comps(piece@));
        }
        return;
    }
    proof {
        if n == 1 {
            assert(piece@ != seq!['.']) by {
                if piece@ == seq!['.'] {
                    assert(piece@[0] == '.');
                }
            }
        }
        assert(piece@ != seq!['.']) by {
            if piece@ == seq!['.'] {
                assert(piece@.len() == 1);
            }
        }
    }
    if n == 2 && piece[0] == '.' && piece[1] == '.' {
        assert(piece@ =~= seq!['.', '.']);
        comps.push(PathComp::Parent);
        assert(comps_view(comps@) =~= before + piece_comps(piece@));
        return;
    }
    proof {
        assert(piece@ != seq!['.', '.']) by {
            if piece@ == seq!['.', '.'] {
                assert(piece@.len() == 2 && piece@[0] == '.' && piece@[1] == '.');
            }
        }
    }
    comps.push(PathComp::Normal(piece));
    assert(comps_view(comps@) =~= before + piece_comps(piece@));
}

/// The components of a path.
pub fn path_components(p: &str) -> (r: Vec<PathComp>)
    ensures
        comps_view(r@) == components(p@),
{
    let mut comps: Vec<PathComp> = Vec::new();
    let mut cur: Vec<char> = Vec::new();
    let mut done_count: usize = 0;
    let ghost mut done: Seq<Seq<char>> = Seq::empty();
    let total = p.unicode_len();
    for c in it: p.chars()
        invariant
            it.seq() == p@,
            total == p@.len(),
            split_slash(it.seq().take(it.index() as int)) == done.push(cur@),
            comps_view(comps@) == comps_prefix(done),
            done_count == done.len(),
            done_count <= it.index(),
    {
        let ghost t = it.seq().take(it.index() + 1);
        proof {
            assert(t.drop_last() =~= it.seq().take(it.index() as int));
            assert(t.last() == c);
        }
        if c == '/' {
            let piece = cur;
            cur = Vec::new();
            proof {
                lemma_comps_prefix_push(done, piece@);
            }
            piece_components(piece, done_count == 0, &mut comps);
            proof {
                done = done.push(piece@);
            }
            done_count = done_count + 1;
            assert(split_slash(t) =~= done.push(cur@));
        } else {
            let ghost old_cur = cur@;
            cur.push(c);
            assert(split_slash(t) =~= done.push(cur@)) by {
                assert(done.push(old_cur).update(done.len() as int, old_cur.push(c)) =~= done.push(cur@));
            }
        }
    }
    proof {
        assert(p@.take(p@.len() as int) =~= p@);
    }
    if done_count == 0 {
        let mut lone: Vec<PathComp> = Vec::new();
        proof {
            assert(done.push(cur@).len() == 1);
        }
        if cur.len() == 1 && cur[0] == '.' {
            assert(cur@ =~= seq!['.']);
            lone.push(PathComp::Cur);
            assert(comps_view(lone@) =~= lone_comps(cur@));
            return lone;
        }
        proof {
            assert(cur@ != seq!['.']) by {
                if cur@ == seq!['.'] {
                    assert(cur@.len() == 1 && cur@[0] == '.');
                }
            }
        }
        piece_components(cur, false, &mut lone);
        assert(comps_view(lone@) =~= lone_comps(done.push(cur@)[0]));
        return lone;
    }
    let ghost last = cur@;
    piece_components(cur, false, &mut comps);
    proof {
        let ps = done.push(last);
        assert(ps.drop_last() =~= done);
        assert(ps.last() == last);
    }
    comps
}

/// The order of components is a strict total order.
pub proof fn lemma_comp_order(a: Comp, b: Comp, c: Comp)
    ensures
        !comp_less(a, a),
        a != b ==> (comp_less(a, b) || comp_less(b, a)),
        !(comp_less(a, b) && comp_less(b, a)),
        comp_less(a, b) && comp_less(b, c) ==> comp_less(a, c),
{
    match (a, b) {
        (Comp::Normal(x), Comp::Normal(y)) => {
            lemma_lex_total(x, y);
            lemma_lex_irreflexive(x);
        },
        _ => {},
    }
    match a {
        Comp::Normal(x) => lemma_lex_irreflexive(x),
        _ => {},
    }
    if comp_less(a, b) && comp_less(b, c) {
        match (a, b, c) {
            (Comp::Normal(x), Comp::Normal(y), Comp::Normal(z)) => lemma_lex_trans(x, y, z),
            _ => {},
        }
    }
}

/// Removing a common prefix does not change the order of component lists.
pub proof fn lemma_comps_skip(a: Seq<Comp>, b: Seq<Comp>, i: int)
    requires
        0 <= i <= a.len(),
        i <= b.len(),
        forall|j: int| 0 <= j < i ==> a[j] == b[j],
    ensures
        comps_less(a, b) == comps_less(a.skip(i), b.skip(i)),
    decreases i,
{
    if i == 0 {
        assert(a.skip(0) =~= a);
        assert(b.skip(0) =~= b);
    } else {
        lemma_comp_order(a[0], b[0], b[0]);
        lemma_comps_skip(a.drop_first(), b.drop_first(), i - 1);
        assert(a.drop_first().skip(i - 1) =~= a.skip(i));
        assert(b.drop_first().skip(i - 1) =~= b.skip(i));
    }
}

/// The order of component lists is a strict total order.
pub proof fn lemma_comps_order(a: Seq<Comp>, b: Seq<Comp>)
    ensures
        !comps_less(a, a),
        a != b ==> (comps_less(a, b) || comps_less(b, a)),
        !(comps_less(a, b) && comps_less(b, a)),
    decreases a.len(),
{
    if a.len() > 0 {
        lemma_comp_order(a[0], a[0], a[0]);
        lemma_comps_order(a.drop_first(), a.drop_first());
    }
    if a.len() > 0 && b.len() > 0 {
        lemma_comp_order(a[0], b[0], b[0]);
        if a[0] == b[0] {
            lemma_comps_order(a.drop_first(), b.drop_first());
            if a != b {
                assert(a.drop_first() != b.drop_first()) by {
                    if a.drop_first() =~= b.drop_first() {
                        assert(a =~= b) by {
                            assert forall|j: int| 0 <= j < a.len() implies a[j] == b[j] by {
                                if j > 0 {
                                    assert(a[j] == a.drop_first()[j - 1]);
                                }
                            }
                        }
                    }
                }
            }
        }
    } else if a.len() == 0 && b.len() == 0 {
        assert(a =~= b);
    }
}

/// The order of component lists is transitive.
pub proof fn lemma_comps_trans(a: Seq<Comp>, b: Seq<Comp>, c: Seq<Comp>)
    requires
        comps_less(a, b),
        comps_less(b, c),
    ensures
        comps_less(a, c),
    decreases a.len(),
{
    if a.len() > 0 {
        lemma_comp_order(a[0], b[0], c[0]);
        if a[0] == b[0] && b[0] == c[0] {
            lemma_comps_trans(a.drop_first(), b.drop_first(), c.drop_first());
        }
    }
}

/// Whether `a` comes before `b` by characters, and whether they are equal.
fn chars_compare(a: &Vec<char>, b: &Vec<char>) -> (r: (bool, bool))
    ensures
        r.0 == lex_less(a@, b@),
        r.1 == (a@ == b@),
{
    let n = a.len();
    let m = b.len();
    let mut i: usize = 0;
    while i < n && i < m
        invariant
            n == a@.len(),
            m == b@.len(),
            i <= n,
            i <= m,
            forall|j: int| 0 <= j < i ==> a@[j] == b@[j],
        decreases n - i,
    {
        let x = a[i];
        let y = b[i];
        if x != y {
            proof {
                lemma_lex_skip(a@, b@, i as int);
                lemma_char_code_injective(x, y);
                assert(a@.skip(i as int)[0] == x);
                assert(b@.skip(i as int)[0] == y);
            }
            assert(a@[i as int] != b@[i as int]);
            return (char_less(x, y), false);
        }
        i = i + 1;
    }
    proof {
        lemma_lex_skip(a@, b@, i as int);
        if i == n && i == m {
            assert(a@ =~= b@);
        }
        if a@ == b@ {
            assert(i == n && i == m);
        }
    }
    (i < m && i == n, i == n && i == m)
}

/// Whether component `a` comes before `b`, and whether they are equal.
fn comp_compare(a: &PathComp, b: &PathComp) -> (r: (bool, bool))
    ensures
        r.0 == comp_less(comp_view(*a), comp_view(*b)),
        r.1 == (comp_view(*a) == comp_view(*b)),
{
    let ra: u8 = match a {
        PathComp::Root => 1,
        PathComp::Cur => 2,
        PathComp::Parent => 3,
        PathComp::Normal(_) => 4,
    };
    let rb: u8 = match b {
        PathComp::Root => 1,
        PathComp::Cur => 2,
        PathComp::Parent => 3,
        PathComp::Normal(_) => 4,
    };
    assert(ra == comp_rank(comp_view(*a)));
    assert(rb == comp_rank(comp_view(*b)));
    match (a, b) {
        (PathComp::Normal(x), PathComp::Normal(y)) => chars_compare(x, y),
        _ => (ra < rb, ra == rb),
    }
}

/// Whether component list `a` comes before `b`, and whether they are equal.
fn comps_compare(a: &Vec<PathComp>, b: &Vec<PathComp>) -> (r: (bool, bool))
    ensures
        r.0 == comps_less(comps_view(a@), comps_view(b@)),
        r.1 == (comps_view(a@) == comps_view(b@)),
{
    let ghost va = comps_view(a@);
    let ghost vb = comps_view(b@);
    let n = a.len();
    let m = b.len();
    let mut i: usize = 0;
    while i < n && i < m
        invariant
            n == a@.len(),
            m == b@.len(),
            va == comps_view(a@),
            vb == comps_view(b@),
            i <= n,
            i <= m,
            forall|j: int| 0 <= j < i ==> va[j] == vb[j],
        decreases n - i,
    {
        let (less, equal) = comp_compare(&a[i], &b[i]);
        if !equal {
            proof {
                lemma_comps_skip(va, vb, i as int);
                assert(va.skip(i as int)[0] == va[i as int]);
                assert(vb.skip(i as int)[0] == vb[i as int]);
                lemma_comp_order(va[i as int], vb[i as int], vb[i as int]);
            }
            assert(va[i as int] != vb[i as int]);
            return (less, false);
        }
        i = i + 1;
    }
    proof {
        lemma_comps_skip(va, vb, i as int);
        if i == n && i == m {
            assert(va =~= vb);
        }
        if va == vb {
            assert(i == n && i == m);
        }
    }
    (i < m && i == n, i == n && i == m)
}

/// A path's components together with its position in the list being ordered.
#[derive(Debug, Clone)]
pub struct PathKey {
    /// The components.
    pub comps: Vec<PathComp>,
    /// The position of the path in the list.
    pub index: usize,
}

/// The components of a key, over plain values.
pub open spec fn key_comps(k: PathKey) -> Seq<Comp> {
    comps_view(k.comps@)
}

/// The key at a position.
pub open spec fn key_at(s: Seq<PathKey>, i: usize) -> PathKey {
    s[i as int]
}

/// The order of two keys, by their components.
pub fn compare_keys(a: &PathKey, b: &PathKey) -> (r: Ordering)
    ensures
        (r == Ordering::Less) == comps_less(key_comps(*a), key_comps(*b)),
        (r == Ordering::Equal) == (key_comps(*a) == key_comps(*b)),
        (r == Ordering::Greater) == comps_less(key_comps(*b), key_comps(*a)),
{
    let (less, equal) = comps_compare(&a.comps, &b.comps);
    proof {
        lemma_comps_order(key_comps(*a), key_comps(*b));
    }
    if less {
        Ordering::Less
    } else if equal {
        Ordering::Equal
    } else {
        Ordering::Greater
    }
}

/// Sorts keys with `slice::sort_by` and [`compare_keys`], a verified strict total order.
///
/// Trusted: `sort_by` is documented to sort by the comparator and to be stable. So the
/// result holds each key once, in non-decreasing order of components, and keys with equal
/// components keep their relative order (their positions in the list, which `index` holds).
#[verifier::external_body]
fn sort_keys(keys: &mut Vec<PathKey>)
    requires
        forall|i: int| 0 <= i < old(keys)@.len() ==> #[trigger] old(keys)@[i].index == i,
    ensures
        final(keys)@.len() == old(keys)@.len(),
        forall|q: int| 0 <= q < final(keys)@.len() ==> #[trigger] final(keys)@[q].index < old(keys)@.len()
            && key_comps(final(keys)@[q]) == key_comps(key_at(old(keys)@, final(keys)@[q].index)),
        forall|k: int| #![trigger old(keys)@[k]] 0 <= k < old(keys)@.len() ==> exists|q: int|
            0 <= q < final(keys)@.len() && #[trigger] final(keys)@[q].index == old(keys)@[k].index,
        forall|q1: int, q2: int| 0 <= q1 < q2 < final(keys)@.len() ==> !comps_less(
            key_comps(#[trigger] final(keys)@[q2]),
            key_comps(#[trigger] final(keys)@[q1]),
        ),
        forall|q1: int, q2: int| 0 <= q1 < q2 < final(keys)@.len() && key_comps(#[trigger] final(keys)@[q1])
            == key_comps(#[trigger] final(keys)@[q2]) ==> final(keys)@[q1].index < final(keys)@[q2].index,
{
    keys.sort_by(|a, b| compare_keys(a, b));
}

/// The keys are in non-decreasing order of components.
pub open spec fn keys_sorted(s: Seq<PathKey>) -> bool {
    forall|q1: int, q2: int| 0 <= q1 < q2 < s.len() ==> !comps_less(key_comps(#[trigger] s[q2]), key_comps(#[trigger] s[q1]))
}

/// Position `p` starts a run of keys with equal components.
pub open spec fn run_start(s: Seq<PathKey>, p: int) -> bool {
    p == 0 || key_comps(s[p - 1]) != key_comps(s[p])
}

/// In sorted keys, a key between two keys with equal components has those components too.
proof fn lemma_sandwich(s: Seq<PathKey>, a: int, m: int, b: int)
    requires
        keys_sorted(s),
        0 <= a <= m <= b < s.len(),
        key_comps(s[a]) == key_comps(s[b]),
    ensures
        key_comps(s[m]) == key_comps(s[a]),
{
    if a < m && m < b {
        assert(!comps_less(key_comps(s[m]), key_comps(s[a])));
        assert(!comps_less(key_comps(s[b]), key_comps(s[m])));
        lemma_comps_order(key_comps(s[m]), key_comps(s[a]));
    } else if a < m {
        assert(m == b);
    }
}

/// Every position lies in a run whose start has the same components.
proof fn lemma_run_start(s: Seq<PathKey>, q: int) -> (p: int)
    requires
        0 <= q < s.len(),
    ensures
        0 <= p <= q,
        key_comps(s[p]) == key_comps(s[q]),
        run_start(s, p),
    decreases q,
{
    if q == 0 || key_comps(s[q - 1]) != key_comps(s[q]) {
        q
    } else {
        lemma_run_start(s, q - 1)
    }
}

/// The components of the path at position `k`.
pub open spec fn path_comps(paths: Seq<String>, k: int) -> Seq<Comp> {
    components(paths[k]@)
}

/// Some reported position holds a path with the same components as the path at `k`.
pub open spec fn is_reported(paths: Seq<String>, r: Seq<usize>, k: int) -> bool {
    exists|i: int| 0 <= i < r.len() && path_comps(paths, #[trigger] r[i] as int) == path_comps(paths, k)
}

/// The order in which collected paths are reported: the positions of the paths in
/// increasing order of their components, each distinct path (by components) once, at the
/// position where it first occurs.
pub fn path_order(paths: &Vec<String>) -> (r: Vec<usize>)
    ensures
        forall|i: int| 0 <= i < r@.len() ==> #[trigger] r@[i] < paths@.len(),
        forall|i: int, j: int| 0 <= i < j < r@.len() ==> comps_less(
            path_comps(paths@, #[trigger] r@[i] as int),
            path_comps(paths@, #[trigger] r@[j] as int),
        ),
        forall|k: int| 0 <= k < paths@.len() ==> #[trigger] is_reported(paths@, r@, k),
        forall|i: int, k: int| 0 <= i < r@.len() && 0 <= k < paths@.len() && #[trigger] path_comps(paths@, k) == path_comps(paths@, #[trigger] r@[i] as int) ==> r@[i] <= k,
{
    let n = paths.len();
    let mut keys: Vec<PathKey> = Vec::new();
    let mut i: usize = 0;
    while i < n
        invariant
            n == paths@.len(),
            i <= n,
            keys@.len() == i,
            forall|j: int| 0 <= j < i ==> #[trigger] keys@[j].index == j && key_comps(keys@[j]) == path_comps(paths@, j),
        decreases n - i,
    {
        keys.push(PathKey { comps: path_components(paths[i].as_str()), index: i });
        i = i + 1;
    }
    let ghost orig = keys@;
    sort_keys(&mut keys);
    let ghost s = keys@;
    assert(keys_sorted(s));
    let mut r: Vec<usize> = Vec::new();
    let ghost mut pos: Seq<int> = Seq::empty();
    let mut q: usize = 0;
    while q < n
        invariant
            n == paths@.len(),
            s == keys@,
            s.len() == n,
            keys_sorted(s),
            forall|x: int| 0 <= x < n ==> #[trigger] s[x].index < n && key_comps(s[x]) == path_comps(paths@, s[x].index as int),
            q <= n,
            r@.len() == pos.len(),
            forall|x: int| 0 <= x < pos.len() ==> 0 <= #[trigger] pos[x] < q && r@[x] == s[pos[x]].index && run_start(s, pos[x]),
            forall|x: int, y: int| 0 <= x < y < pos.len() ==> #[trigger] pos[x] < #[trigger] pos[y],
            forall|p: int| 0 <= p < q && run_start(s, p) ==> exists|x: int| 0 <= x < pos.len() && #[trigger] pos[x] == p,
        decreases n - q,
    {
        let keep = if q == 0 {
            true
        } else {
            let (_less, equal) = comps_compare(&keys[q - 1].comps, &keys[q].comps);
            !equal
        };
        let ghost old_pos = pos;
        if keep {
            r.push(keys[q].index);
            proof {
                pos = pos.push(q as int);
            }
        }
        proof {
            assert forall|p: int| 0 <= p < q + 1 && run_start(s, p) implies exists|x: int| 0 <= x < pos.len() && #[trigger] pos[x] == p by {
                if p < q {
                    let x = choose|x: int| 0 <= x < old_pos.len() && #[trigger] old_pos[x] == p;
                    assert(pos[x] == p);
                } else {
                    assert(keep);
                    assert(pos[pos.len() - 1] == p);
                }
            }
        }
        q = q + 1;
    }
    proof {
        assert forall|x: int, y: int| 0 <= x < y < r@.len() implies comps_less(
            path_comps(paths@, #[trigger] r@[x] as int),
            path_comps(paths@, #[trigger] r@[y] as int),
        ) by {
            let a = pos[x];
            let b = pos[y];
            assert(a < b);
            assert(!comps_less(key_comps(s[b]), key_comps(s[a])));
            if key_comps(s[a]) == key_comps(s[b]) {
                lemma_sandwich(s, a, b - 1, b);
                assert(run_start(s, b));
            }
            lemma_comps_order(key_comps(s[a]), key_comps(s[b]));
        }
        assert forall|k: int| 0 <= k < paths@.len() implies #[trigger] is_reported(paths@, r@, k) by {
            assert(orig[k].index == k);
            let qk = choose|qq: int| 0 <= qq < s.len() && #[trigger] s[qq].index == orig[k].index;
            let p = lemma_run_start(s, qk);
            let x = choose|x: int| 0 <= x < pos.len() && #[trigger] pos[x] == p;
            assert(path_comps(paths@, r@[x] as int) == key_comps(s[p]));
            assert(key_comps(s[qk]) == path_comps(paths@, k));
            assert(path_comps(paths@, r@[x] as int) == path_comps(paths@, k));
            assert(0 <= x < r@.len());
            assert(exists|x: int| #![trigger r@[x]] 0 <= x < r@.len() && path_comps(paths@, r@[x] as int) == path_comps(paths@, k));
        }
        assert forall|x: int| 0 <= x < r@.len() implies #[trigger] r@[x] < paths@.len() by {
            assert(s[pos[x]].index < n);
        }
        assert forall|x: int, k: int| 0 <= x < r@.len() && 0 <= k < paths@.len() && #[trigger] path_comps(paths@, k) == path_comps(paths@, #[trigger] r@[x] as int) implies r@[x] <= k by {
            assert(orig[k].index == k);
            let qk = choose|qq: int| 0 <= qq < s.len() && #[trigger] s[qq].index == orig[k].index;
            let a = pos[x];
            assert(key_comps(s[qk]) == key_comps(s[a]));
            if qk < a {
                lemma_sandwich(s, qk, a - 1, a);
                assert(run_start(s, a));
            } else if qk > a {
                assert(s[a].index < s[qk].index);
            }
        }
    }
    r
}

} // verus!
