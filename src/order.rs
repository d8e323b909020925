//! Sorting of units into processing order, and the laws of that order.
use vstd::multiset::Multiset;
use vstd::prelude::*;
use std::cmp::Ordering;

use crate::walker::{
    album_key, file_file_order, file_folder_order, int_order, path_order, reversed, seg_order,
    single_key, text_order, unit_order, Seg, RGE,
};

verus! {

pub proof fn lemma_text_antisym(a: Seq<char>, b: Seq<char>)
    ensures
        text_order(a, b) == reversed(text_order(b, a)),
    decreases a.len(),
{
    if a.len() > 0 && b.len() > 0 && a[0] == b[0] {
        lemma_text_antisym(a.drop_first(), b.drop_first());
    }
}

pub proof fn lemma_seg_antisym(a: Seg, b: Seg)
    ensures
        seg_order(a, b) == reversed(seg_order(b, a)),
{
    lemma_text_antisym(a.1, b.1);
}

pub proof fn lemma_path_antisym(a: Seq<Seg>, b: Seq<Seg>)
    ensures
        path_order(a, b) == reversed(path_order(b, a)),
    decreases a.len(),
{
    if a.len() > 0 && b.len() > 0 {
        lemma_seg_antisym(a[0], b[0]);
        lemma_path_antisym(a.drop_first(), b.drop_first());
    }
}

pub proof fn lemma_file_file_antisym(a: Seq<Seg>, b: Seq<Seg>)
    ensures
        file_file_order(a, b) == reversed(file_file_order(b, a)),
    decreases a.len(),
{
    if a.len() > 0 && b.len() > 0 {
        lemma_seg_antisym(a[0], b[0]);
        lemma_file_file_antisym(a.drop_first(), b.drop_first());
    }
}

/// Swapping the two units reverses their order.
pub proof fn lemma_unit_antisym(a: RGE, b: RGE)
    ensures
        unit_order(a, b) == reversed(unit_order(b, a)),
{
    match (a, b) {
        (RGE::Album(x), RGE::Album(y)) => lemma_path_antisym(
            crate::walker::album_key(x@),
            crate::walker::album_key(y@),
        ),
        (RGE::Single(p), RGE::Single(q)) => lemma_file_file_antisym(
            crate::walker::single_key(p),
            crate::walker::single_key(q),
        ),
        _ => {},
    }
}

/// A component of a unit's sort path, marked where it is the name of a file
/// (the last component of a single) rather than of a folder.
pub type Elem = (bool, Seg);

pub open spec fn flagged(k: Seq<Seg>, file: bool) -> Seq<Elem> {
    k.map(|i: int, x: Seg| (file && i == k.len() - 1, x))
}

/// The sort path of a unit: an album's folder, or a single's own path.
pub open spec fn elems(u: RGE) -> Seq<Elem> {
    match u {
        RGE::Album(v) => flagged(album_key(v@), false),
        RGE::Single(p) => flagged(single_key(p), true),
    }
}

/// Components with the same name are alike; otherwise a folder comes
/// before a file, and names of the same sort compare as names.
pub open spec fn elem_order(x: Elem, y: Elem) -> Ordering {
    if seg_order(x.1, y.1) == Ordering::Equal {
        Ordering::Equal
    } else if x.0 && !y.0 {
        Ordering::Greater
    } else if !x.0 && y.0 {
        Ordering::Less
    } else {
        seg_order(x.1, y.1)
    }
}

/// The lexicographic order of sort paths over `elem_order`.
pub open spec fn elems_order(a: Seq<Elem>, b: Seq<Elem>) -> Ordering
    decreases a.len(),
{
    if a.len() == 0 || b.len() == 0 {
        int_order(a.len() as int, b.len() as int)
    } else if elem_order(a[0], b[0]) != Ordering::Equal {
        elem_order(a[0], b[0])
    } else {
        elems_order(a.drop_first(), b.drop_first())
    }
}

/// Along the prefix where the two sort paths have the same names, no name
/// is a file in one and a folder in the other: the two can stand in one
/// directory tree.
pub open spec fn consistent(a: Seq<Elem>, b: Seq<Elem>) -> bool
    decreases a.len(),
{
    if a.len() == 0 || b.len() == 0 {
        true
    } else if a[0].1 != b[0].1 {
        true
    } else {
        a[0].0 == b[0].0 && consistent(a.drop_first(), b.drop_first())
    }
}

/// Two units can stand in one directory tree, names taken upper-cased.
pub open spec fn tree_compatible(a: RGE, b: RGE) -> bool {
    consistent(elems(a), elems(b))
}

proof fn lemma_flagged_rest(k: Seq<Seg>, file: bool)
    requires
        k.len() > 0,
    ensures
        flagged(k, file).drop_first() == flagged(k.drop_first(), file),
        flagged(k, file)[0] == (file && k.len() == 1, k[0]),
        flagged(k, file).len() == k.len(),
{
    assert(flagged(k, file).drop_first() =~= flagged(k.drop_first(), file));
}

proof fn lemma_text_eq(a: Seq<char>, b: Seq<char>)
    ensures
        (text_order(a, b) == Ordering::Equal) == (a == b),
    decreases a.len(),
{
    if a.len() > 0 && b.len() > 0 && a[0] == b[0] {
        lemma_text_eq(a.drop_first(), b.drop_first());
        if a.drop_first() == b.drop_first() {
            assert(a =~= seq![a[0]] + a.drop_first());
            assert(b =~= seq![b[0]] + b.drop_first());
        }
        if a == b {
            assert(a.drop_first() =~= b.drop_first());
        }
    } else if a.len() == 0 && b.len() == 0 {
        assert(a =~= b);
    }
}

proof fn lemma_seg_eq(x: Seg, y: Seg)
    ensures
        (seg_order(x, y) == Ordering::Equal) == (x == y),
{
    lemma_text_eq(x.1, y.1);
}

proof fn lemma_text_trans(a: Seq<char>, b: Seq<char>, c: Seq<char>)
    requires
        text_order(a, b) == Ordering::Less,
        text_order(b, c) == Ordering::Less,
    ensures
        text_order(a, c) == Ordering::Less,
    decreases a.len(),
{
    if a.len() > 0 && b.len() > 0 && c.len() > 0 && a[0] == b[0] && b[0] == c[0] {
        lemma_text_trans(a.drop_first(), b.drop_first(), c.drop_first());
    }
}

proof fn lemma_seg_trans(x: Seg, y: Seg, z: Seg)
    requires
        seg_order(x, y) == Ordering::Less,
        seg_order(y, z) == Ordering::Less,
    ensures
        seg_order(x, z) == Ordering::Less,
{
    if x.0 == y.0 && y.0 == z.0 {
        lemma_text_trans(x.1, y.1, z.1);
    }
}

proof fn lemma_elem_trans(x: Elem, y: Elem, z: Elem)
    requires
        elem_order(x, y) == Ordering::Less,
        elem_order(y, z) == Ordering::Less,
        x.1 == z.1 ==> x.0 == z.0,
    ensures
        elem_order(x, z) == Ordering::Less,
{
    lemma_seg_eq(x.1, z.1);
    lemma_seg_eq(x.1, y.1);
    lemma_seg_eq(y.1, z.1);
    if x.0 == y.0 && y.0 == z.0 {
        lemma_seg_trans(x.1, y.1, z.1);
    }
}

proof fn lemma_elems_trans(a: Seq<Elem>, b: Seq<Elem>, c: Seq<Elem>)
    requires
        elems_order(a, b) == Ordering::Less,
        elems_order(b, c) == Ordering::Less,
        consistent(a, b),
        consistent(b, c),
        consistent(a, c),
    ensures
        elems_order(a, c) == Ordering::Less,
    decreases a.len(),
{
    if a.len() > 0 && b.len() > 0 && c.len() > 0 {
        lemma_seg_eq(a[0].1, b[0].1);
        lemma_seg_eq(b[0].1, c[0].1);
        lemma_seg_eq(a[0].1, c[0].1);
        let e1 = elem_order(a[0], b[0]);
        let e2 = elem_order(b[0], c[0]);
        if e1 == Ordering::Equal && e2 == Ordering::Equal {
            lemma_elems_trans(a.drop_first(), b.drop_first(), c.drop_first());
        } else if e1 == Ordering::Equal {
            assert(a[0] == b[0]);
        } else if e2 == Ordering::Equal {
            assert(b[0] == c[0]);
        } else {
            lemma_elem_trans(a[0], b[0], c[0]);
        }
    }
}

proof fn lemma_elem_antisym(x: Elem, y: Elem)
    ensures
        elem_order(x, y) == reversed(elem_order(y, x)),
{
    lemma_seg_antisym(x.1, y.1);
}

proof fn lemma_elems_antisym(a: Seq<Elem>, b: Seq<Elem>)
    ensures
        elems_order(a, b) == reversed(elems_order(b, a)),
    decreases a.len(),
{
    if a.len() > 0 && b.len() > 0 {
        lemma_elem_antisym(a[0], b[0]);
        lemma_elems_antisym(a.drop_first(), b.drop_first());
    }
}

proof fn lemma_path_elems(a: Seq<Seg>, b: Seq<Seg>)
    ensures
        path_order(a, b) == elems_order(flagged(a, false), flagged(b, false)),
    decreases a.len(),
{
    if a.len() > 0 && b.len() > 0 {
        lemma_flagged_rest(a, false);
        lemma_flagged_rest(b, false);
        lemma_path_elems(a.drop_first(), b.drop_first());
    }
}

proof fn lemma_file_folder_elems(a: Seq<Seg>, b: Seq<Seg>)
    ensures
        file_folder_order(a, b) == elems_order(flagged(a, true), flagged(b, false)),
    decreases a.len(),
{
    if a.len() > 0 && b.len() > 0 {
        lemma_flagged_rest(a, true);
        lemma_flagged_rest(b, false);
        lemma_file_folder_elems(a.drop_first(), b.drop_first());
    }
}

proof fn lemma_file_file_elems(a: Seq<Seg>, b: Seq<Seg>)
    ensures
        file_file_order(a, b) == elems_order(flagged(a, true), flagged(b, true)),
    decreases a.len(),
{
    if a.len() > 0 && b.len() > 0 {
        lemma_flagged_rest(a, true);
        lemma_flagged_rest(b, true);
        lemma_file_file_elems(a.drop_first(), b.drop_first());
    }
}

/// The order of units is the lexicographic order of their sort paths.
pub proof fn lemma_unit_order_elems(a: RGE, b: RGE)
    ensures
        unit_order(a, b) == elems_order(elems(a), elems(b)),
{
    match (a, b) {
        (RGE::Album(x), RGE::Album(y)) => lemma_path_elems(album_key(x@), album_key(y@)),
        (RGE::Album(x), RGE::Single(q)) => {
            lemma_file_folder_elems(single_key(q), album_key(x@));
            lemma_elems_antisym(elems(a), elems(b));
        },
        (RGE::Single(p), RGE::Album(y)) => lemma_file_folder_elems(single_key(p), album_key(y@)),
        (RGE::Single(p), RGE::Single(q)) => lemma_file_file_elems(single_key(p), single_key(q)),
    }
}

/// The order is transitive among units that can stand together in one
/// directory tree: `a < b` and `b < c` give `a < c`.
pub proof fn lemma_unit_order_transitive(a: RGE, b: RGE, c: RGE)
    requires
        tree_compatible(a, b),
        tree_compatible(b, c),
        tree_compatible(a, c),
        unit_order(a, b) == Ordering::Less,
        unit_order(b, c) == Ordering::Less,
    ensures
        unit_order(a, c) == Ordering::Less,
{
    lemma_unit_order_elems(a, b);
    lemma_unit_order_elems(b, c);
    lemma_unit_order_elems(a, c);
    lemma_elems_trans(elems(a), elems(b), elems(c));
}

/// Each unit is in order with the next one.
pub open spec fn is_sorted(s: Seq<RGE>) -> bool {
    forall|i: int| 0 <= i < s.len() - 1 ==> unit_order(s[i], #[trigger] s[i + 1]) != Ordering::Greater
}

/// `x` inserted into `s` after every unit that it does not sort before.
pub open spec fn insert_spec(s: Seq<RGE>, x: RGE) -> Seq<RGE>
    decreases s.len(),
{
    if s.len() == 0 || unit_order(x, s.last()) != Ordering::Less {
        s.push(x)
    } else {
        insert_spec(s.drop_last(), x).push(s.last())
    }
}

/// Insertion sort, taking the units in their given order.
pub open spec fn sort_spec(s: Seq<RGE>) -> Seq<RGE>
    decreases s.len(),
{
    if s.len() == 0 {
        s
    } else {
        insert_spec(sort_spec(s.drop_last()), s.last())
    }
}

proof fn lemma_insert_at(p: Seq<RGE>, x: RGE, j: int)
    requires
        0 <= j <= p.len(),
        forall|k: int| j <= k < p.len() ==> unit_order(x, #[trigger] p[k]) == Ordering::Less,
        j == 0 || unit_order(x, p[j - 1]) != Ordering::Less,
    ensures
        insert_spec(p, x) == p.insert(j, x),
    decreases p.len(),
{
    if p.len() == j {
        assert(p.push(x) =~= p.insert(j, x));
    } else {
        lemma_insert_at(p.drop_last(), x, j);
        assert(p.drop_last().insert(j, x).push(p.last()) =~= p.insert(j, x));
    }
}

proof fn lemma_insert_multiset(p: Seq<RGE>, x: RGE)
    ensures
        insert_spec(p, x).to_multiset() == p.to_multiset().insert(x),
    decreases p.len(),
{
    broadcast use vstd::seq_lib::group_to_multiset_ensures;

    if p.len() == 0 || unit_order(x, p.last()) != Ordering::Less {
    } else {
        lemma_insert_multiset(p.drop_last(), x);
        assert(p.drop_last().push(p.last()) =~= p);
        assert(p.to_multiset() == p.drop_last().to_multiset().insert(p.last()));
        assert(insert_spec(p, x).to_multiset() =~= p.to_multiset().insert(x));
    }
}

proof fn lemma_insert_last(p: Seq<RGE>, x: RGE)
    ensures
        insert_spec(p, x).len() == p.len() + 1,
        insert_spec(p, x).last() == x || (p.len() > 0 && insert_spec(p, x).last() == p.last()),
    decreases p.len(),
{
    if p.len() == 0 || unit_order(x, p.last()) != Ordering::Less {
    } else {
        lemma_insert_last(p.drop_last(), x);
    }
}

proof fn lemma_insert_sorted(p: Seq<RGE>, x: RGE)
    requires
        is_sorted(p),
    ensures
        is_sorted(insert_spec(p, x)),
    decreases p.len(),
{
    if p.len() == 0 || unit_order(x, p.last()) != Ordering::Less {
        if p.len() > 0 {
            lemma_unit_antisym(x, p.last());
        }
        let q = p.push(x);
        assert forall|i: int| 0 <= i < q.len() - 1 implies unit_order(
            q[i],
            #[trigger] q[i + 1],
        ) != Ordering::Greater by {
            if i + 1 < p.len() {
                assert(q[i] == p[i] && q[i + 1] == p[i + 1]);
            }
        }
    } else {
        let d = p.drop_last();
        assert(is_sorted(d)) by {
            assert forall|i: int| 0 <= i < d.len() - 1 implies unit_order(
                d[i],
                #[trigger] d[i + 1],
            ) != Ordering::Greater by {
                assert(d[i] == p[i] && d[i + 1] == p[i + 1]);
            }
        }
        lemma_insert_sorted(d, x);
        lemma_insert_last(d, x);
        let m = insert_spec(d, x);
        if m.last() == x {
            assert(unit_order(x, p.last()) == Ordering::Less);
        } else {
            assert(m.last() == d.last());
            assert(p[d.len() - 1] == d.last());
            let i = d.len() - 1;
            assert(unit_order(p[i], p[i + 1]) != Ordering::Greater);
        }
        let q = m.push(p.last());
        assert forall|i: int| 0 <= i < q.len() - 1 implies unit_order(
            q[i],
            #[trigger] q[i + 1],
        ) != Ordering::Greater by {
            if i + 1 < m.len() {
                assert(q[i] == m[i] && q[i + 1] == m[i + 1]);
            }
        }
    }
}

/// The sorted sequence holds the same units and is in order.
pub proof fn lemma_sort_spec(s: Seq<RGE>)
    ensures
        sort_spec(s).to_multiset() == s.to_multiset(),
        is_sorted(sort_spec(s)),
    decreases s.len(),
{
    broadcast use vstd::seq_lib::group_to_multiset_ensures;

    if s.len() > 0 {
        lemma_sort_spec(s.drop_last());
        lemma_insert_multiset(sort_spec(s.drop_last()), s.last());
        lemma_insert_sorted(sort_spec(s.drop_last()), s.last());
        assert(s.drop_last().push(s.last()) =~= s);
        assert(s.to_multiset() == s.drop_last().to_multiset().insert(s.last()));
    }
}

/// Sorting a list that is already in order leaves it as it is.
pub proof fn lemma_sort_sorted_unchanged(s: Seq<RGE>)
    requires
        is_sorted(s),
    ensures
        sort_spec(s) == s,
    decreases s.len(),
{
    if s.len() > 0 {
        let d = s.drop_last();
        assert(is_sorted(d)) by {
            assert forall|i: int| 0 <= i < d.len() - 1 implies unit_order(
                d[i],
                #[trigger] d[i + 1],
            ) != Ordering::Greater by {
                assert(d[i] == s[i] && d[i + 1] == s[i + 1]);
            }
        }
        lemma_sort_sorted_unchanged(d);
        if d.len() > 0 {
            lemma_unit_antisym(s.last(), d.last());
            assert(unit_order(s[d.len() - 1], s[d.len() as int]) != Ordering::Greater);
        }
        assert(d.push(s.last()) =~= s);
    }
}

/// Sorting twice gives what sorting once gives.
pub proof fn lemma_sort_idempotent(s: Seq<RGE>)
    ensures
        sort_spec(sort_spec(s)) == sort_spec(s),
{
    lemma_sort_spec(s);
    lemma_sort_sorted_unchanged(sort_spec(s));
}

/// Units that can stand together in one directory tree and that the order
/// tells apart: two different units never compare equal.
pub open spec fn well_separated(m: Multiset<RGE>) -> bool {
    forall|x: RGE, y: RGE|
        #![trigger m.count(x), m.count(y)]
        m.count(x) > 0 && m.count(y) > 0 ==> tree_compatible(x, y) && (x != y ==> unit_order(x, y)
            != Ordering::Equal)
}

proof fn lemma_le_trans(m: Multiset<RGE>, x: RGE, y: RGE, z: RGE)
    requires
        well_separated(m),
        m.count(x) > 0,
        m.count(y) > 0,
        m.count(z) > 0,
        unit_order(x, y) != Ordering::Greater,
        unit_order(y, z) != Ordering::Greater,
    ensures
        unit_order(x, z) != Ordering::Greater,
{
    if unit_order(x, y) == Ordering::Less && unit_order(y, z) == Ordering::Less {
        lemma_unit_order_transitive(x, y, z);
    }
}

proof fn lemma_first_le(s: Seq<RGE>, m: Multiset<RGE>, k: int)
    requires
        is_sorted(s),
        s.to_multiset() == m,
        well_separated(m),
        0 <= k < s.len(),
    ensures
        unit_order(s[0], s[k]) != Ordering::Greater,
    decreases k,
{
    broadcast use vstd::seq_lib::group_to_multiset_ensures;

    assert(s.contains(s[0]));
    assert(s.contains(s[k]));
    if k == 0 {
        lemma_unit_antisym(s[0], s[0]);
    } else {
        lemma_first_le(s, m, k - 1);
        let i = k - 1;
        assert(unit_order(s[i], s[i + 1]) != Ordering::Greater);
        assert(s.contains(s[i]));
        lemma_le_trans(m, s[0], s[i], s[k]);
    }
}

proof fn lemma_sorted_unique(a: Seq<RGE>, b: Seq<RGE>, m: Multiset<RGE>)
    requires
        is_sorted(a),
        is_sorted(b),
        a.to_multiset() == m,
        b.to_multiset() == m,
        well_separated(m),
    ensures
        a == b,
    decreases a.len(),
{
    broadcast use vstd::seq_lib::group_to_multiset_ensures;

    assert(a.len() == a.to_multiset().len());
    assert(b.len() == b.to_multiset().len());
    if a.len() == 0 {
        assert(a =~= b);
    } else {
        let x = a[0];
        let y = b[0];
        assert(a.contains(x));
        assert(b.contains(y));
        assert(b.to_multiset().count(y) > 0);
        assert(a.to_multiset().count(x) > 0);
        assert(a.contains(y));
        assert(b.contains(x));
        let i = choose|i: int| 0 <= i < a.len() && a[i] == y;
        let j = choose|j: int| 0 <= j < b.len() && b[j] == x;
        lemma_first_le(a, m, i);
        lemma_first_le(b, m, j);
        lemma_unit_antisym(x, y);
        assert(x == y);
        let ra = a.remove(0);
        let rb = b.remove(0);
        assert(ra.to_multiset() == m.remove(x));
        assert(rb.to_multiset() == m.remove(x));
        let n = m.remove(x);
        assert(well_separated(n)) by {
            assert forall|u: RGE, v: RGE| n.count(u) > 0 && n.count(v) > 0 implies m.count(u) > 0
                && m.count(v) > 0 by {}
        }
        assert(is_sorted(ra)) by {
            assert forall|k: int| 0 <= k < ra.len() - 1 implies unit_order(
                ra[k],
                #[trigger] ra[k + 1],
            ) != Ordering::Greater by {
                assert(ra[k] == a[k + 1] && ra[k + 1] == a[k + 2]);
            }
        }
        assert(is_sorted(rb)) by {
            assert forall|k: int| 0 <= k < rb.len() - 1 implies unit_order(
                rb[k],
                #[trigger] rb[k + 1],
            ) != Ordering::Greater by {
                assert(rb[k] == b[k + 1] && rb[k + 1] == b[k + 2]);
            }
        }
        lemma_sorted_unique(ra, rb, n);
        assert(a =~= seq![x] + ra);
        assert(b =~= seq![x] + rb);
    }
}

/// Classifying an unchanged tree again gives the same ordered list: in
/// whatever order the directory listings came, sorting the same units
/// gives one result, for units that can stand in one tree and that the
/// order tells apart.
pub proof fn lemma_sort_independent_of_listing(a: Seq<RGE>, b: Seq<RGE>)
    requires
        a.to_multiset() == b.to_multiset(),
        well_separated(a.to_multiset()),
    ensures
        sort_spec(a) == sort_spec(b),
{
    lemma_sort_spec(a);
    lemma_sort_spec(b);
    lemma_sorted_unique(sort_spec(a), sort_spec(b), a.to_multiset());
}

/// Sorts units into processing order. Units that compare equal keep their
/// relative order.
pub fn sort_units(units: Vec<RGE>) -> (r: Vec<RGE>)
    ensures
        r@ == sort_spec(units@),
        r@.to_multiset() == units@.to_multiset(),
        is_sorted(r@),
{
    let ghost orig = units@;
    let mut rest = units;
    let mut out: Vec<RGE> = Vec::new();
    assert(orig.take(0) =~= Seq::<RGE>::empty());
    while rest.len() > 0
        invariant
            rest@.len() <= orig.len(),
            rest@ == orig.skip(orig.len() - rest@.len()),
            out@ == sort_spec(orig.take(orig.len() - rest@.len())),
        decreases rest@.len(),
    {
        let ghost k = orig.len() - rest@.len();
        let x = rest.remove(0);
        assert(x == orig[k]);
        let mut j = out.len();
        while j > 0 && is_less(x.compare(&out[j - 1]))
            invariant
                j <= out@.len(),
                forall|m: int| j <= m < out@.len() ==> unit_order(x, #[trigger] out@[m]) == Ordering::Less,
            decreases j,
        {
            j = j - 1;
        }
        proof {
            lemma_insert_at(out@, x, j as int);
            assert(orig.take(k + 1).drop_last() =~= orig.take(k));
            assert(orig.take(k + 1).last() == x);
            assert(rest@ =~= orig.skip(k + 1));
        }
        out.insert(j, x);
    }
    assert(orig.take(orig.len() as int) =~= orig);
    proof {
        lemma_sort_spec(orig);
    }
    out
}

fn is_less(o: Ordering) -> (r: bool)
    ensures
        r == (o == Ordering::Less),
{
    match o {
        Ordering::Less => true,
        _ => false,
    }
}

} // verus!
