//! The painter's-algorithm depth sorter: projected triangles are ordered
//! back to front (largest depth key first), ties broken by ascending object
//! index, and the sort is stable, so a frame of a static scene always paints
//! in the same order.

use vstd::prelude::*;
use vstd::seq_lib::group_to_multiset_ensures;

verus! {

/// One projected, shaded triangle of the current frame: the index of the
/// object it came from, three screen-space points (fixed-point), a depth key
/// (larger means farther from the camera), and a grayscale shade.
#[derive(Clone, Copy, PartialEq, Eq, Structural, Debug)]
pub struct ProjectedTri {
    pub object: usize,
    pub ax: i64,
    pub ay: i64,
    pub bx: i64,
    pub by: i64,
    pub cx: i64,
    pub cy: i64,
    pub depth: i64,
    pub shade: u8,
}

/// `a` may be drawn no later than `b`: it is farther, or equally far and
/// from an object that comes no later.
pub open spec fn precedes(a: ProjectedTri, b: ProjectedTri) -> bool {
    a.depth > b.depth || (a.depth == b.depth && a.object <= b.object)
}

/// `a` must be drawn strictly before `b`.
pub open spec fn strictly_precedes(a: ProjectedTri, b: ProjectedTri) -> bool {
    a.depth > b.depth || (a.depth == b.depth && a.object < b.object)
}

/// Back-to-front draw order: every earlier triangle is farther, or equally
/// far with a lower-or-equal object index.
pub open spec fn sorted_back_to_front(s: Seq<ProjectedTri>) -> bool {
    forall|i: int, j: int| 0 <= i < j < s.len() ==> precedes(s[i], s[j])
}

/// Stable insertion of `x` into `s`: `x` lands after every element it does
/// not strictly precede, so equal keys keep their arrival order.
pub open spec fn ins_spec(s: Seq<ProjectedTri>, x: ProjectedTri) -> Seq<ProjectedTri>
    decreases s.len(),
{
    if s.len() == 0 {
        seq![x]
    } else if strictly_precedes(x, s.last()) {
        ins_spec(s.drop_last(), x).push(s.last())
    } else {
        s.push(x)
    }
}

/// Stable insertion sort into back-to-front draw order.
pub open spec fn sort_spec(s: Seq<ProjectedTri>) -> Seq<ProjectedTri>
    decreases s.len(),
{
    if s.len() == 0 {
        Seq::empty()
    } else {
        ins_spec(sort_spec(s.drop_last()), s.last())
    }
}

/// Inserting into a sorted list keeps it sorted, adds exactly the new
/// element, and only ever contains the new element and old ones.
pub proof fn lemma_ins_sorted(s: Seq<ProjectedTri>, x: ProjectedTri)
    requires
        sorted_back_to_front(s),
    ensures
        sorted_back_to_front(ins_spec(s, x)),
        ins_spec(s, x).len() == s.len() + 1,
        ins_spec(s, x).to_multiset() == s.to_multiset().insert(x),
        forall|k: int|
            0 <= k < ins_spec(s, x).len() ==> (ins_spec(s, x)[k] == x || s.contains(
                #[trigger] ins_spec(s, x)[k],
            )),
    decreases s.len(),
{
    broadcast use group_to_multiset_ensures;

    let r = ins_spec(s, x);
    if s.len() == 0 {
        assert(r =~= seq![x]);
        assert(r.to_multiset() =~= s.to_multiset().insert(x)) by {
            assert(s.to_multiset() =~= Seq::<ProjectedTri>::empty().to_multiset());
            assert(r =~= Seq::<ProjectedTri>::empty().push(x));
        }
    } else if strictly_precedes(x, s.last()) {
        let p = s.drop_last();
        assert(sorted_back_to_front(p)) by {
            assert(forall|i: int, j: int|
                0 <= i < j < p.len() ==> p[i] == s[i] && p[j] == s[j] && precedes(s[i], s[j]));
        }
        lemma_ins_sorted(p, x);
        let inner = ins_spec(p, x);
        assert(r == inner.push(s.last()));
        assert(forall|k: int| 0 <= k < inner.len() ==> r[k] == inner[k]);
        assert(r[r.len() - 1] == s.last());
        // every element of `inner` may precede s.last()
        assert forall|k: int| 0 <= k < inner.len() implies precedes(inner[k], s.last()) by {
            if inner[k] == x {
                assert(strictly_precedes(x, s.last()));
            } else {
                assert(p.contains(inner[k]));
                let i = choose|i: int| 0 <= i < p.len() && p[i] == inner[k];
                assert(s[i] == p[i]);
                assert(precedes(s[i], s.last()));
            }
        }
        assert(sorted_back_to_front(r));
        // contents
        assert forall|k: int| 0 <= k < r.len() implies (r[k] == x || s.contains(#[trigger] r[k])) by {
            if k < inner.len() {
                if inner[k] != x {
                    assert(p.contains(inner[k]));
                    let i = choose|i: int| 0 <= i < p.len() && p[i] == inner[k];
                    assert(s[i] == r[k]);
                }
            } else {
                assert(r[k] == s[s.len() - 1]);
            }
        }
        // multiset
        assert(s =~= p.push(s.last()));
        assert(s.to_multiset() == p.to_multiset().insert(s.last()));
        assert(r.to_multiset() == inner.to_multiset().insert(s.last()));
        assert(inner.to_multiset() == p.to_multiset().insert(x));
        assert(p.to_multiset().insert(x).insert(s.last()) =~= p.to_multiset().insert(
            s.last(),
        ).insert(x));
    } else {
        assert(r == s.push(x));
        // x may follow every element of s
        assert forall|k: int| 0 <= k < s.len() implies precedes(s[k], x) by {
            assert(precedes(s[k], s.last()) || k == s.len() - 1);
            assert(!strictly_precedes(x, s.last()));
        }
        assert(sorted_back_to_front(r)) by {
            assert(forall|k: int| 0 <= k < s.len() ==> r[k] == s[k]);
            assert(r[r.len() - 1] == x);
        }
        assert(r.to_multiset() == s.to_multiset().insert(x));
        assert(forall|k: int| 0 <= k < s.len() ==> s.contains(#[trigger] s[k]));
    }
}

/// The insertion sort produces a sorted permutation of its input.
pub proof fn lemma_sort_spec_sorted(s: Seq<ProjectedTri>)
    ensures
        sorted_back_to_front(sort_spec(s)),
        sort_spec(s).len() == s.len(),
        sort_spec(s).to_multiset() == s.to_multiset(),
    decreases s.len(),
{
    broadcast use group_to_multiset_ensures;

    if s.len() == 0 {
        assert(sort_spec(s) =~= Seq::<ProjectedTri>::empty());
    } else {
        let p = s.drop_last();
        lemma_sort_spec_sorted(p);
        lemma_ins_sorted(sort_spec(p), s.last());
        assert(s =~= p.push(s.last()));
        assert(s.to_multiset() == p.to_multiset().insert(s.last()));
    }
}

/// Depth sorting is idempotent: a list already in draw order comes back
/// unchanged — the sort is stable.
pub proof fn lemma_sort_idempotent(s: Seq<ProjectedTri>)
    requires
        sorted_back_to_front(s),
    ensures
        sort_spec(s) == s,
    decreases s.len(),
{
    if s.len() == 0 {
        assert(sort_spec(s) =~= s);
    } else {
        let p = s.drop_last();
        assert(sorted_back_to_front(p)) by {
            assert(forall|i: int, j: int|
                0 <= i < j < p.len() ==> p[i] == s[i] && p[j] == s[j] && precedes(s[i], s[j]));
        }
        lemma_sort_idempotent(p);
        if p.len() == 0 {
            assert(ins_spec(p, s.last()) =~= seq![s.last()]);
            assert(s =~= seq![s.last()]);
        } else {
            assert(precedes(s[s.len() - 2], s[s.len() - 1]));
            assert(p.last() == s[s.len() - 2]);
            assert(!strictly_precedes(s.last(), p.last()));
            assert(ins_spec(p, s.last()) == p.push(s.last()));
            assert(p.push(s.last()) =~= s);
        }
    }
}

/// Inserts one triangle into a draw list, mirroring `ins_spec`.
fn insert_sorted(list: Vec<ProjectedTri>, tri: ProjectedTri) -> (r: Vec<ProjectedTri>)
    ensures
        r@ == ins_spec(list@, tri),
    decreases list.len(),
{
    if list.len() == 0 {
        let mut r = list;
        r.push(tri);
        proof {
            assert(r@ =~= seq![tri]);
        }
        r
    } else {
        let last = list[list.len() - 1];
        if tri.depth > last.depth || (tri.depth == last.depth && tri.object < last.object) {
            let mut shorter = list;
            shorter.pop();
            let mut r = insert_sorted(shorter, tri);
            r.push(last);
            r
        } else {
            let mut r = list;
            r.push(tri);
            r
        }
    }
}

/// Orders a frame's triangles back to front for the painter's algorithm:
/// farther triangles (larger depth key) come strictly earlier, ties are
/// broken by ascending object index, and equal keys keep their input order.
pub fn sort_triangles(tris: Vec<ProjectedTri>) -> (r: Vec<ProjectedTri>)
    ensures
        r@ == sort_spec(tris@),
        sorted_back_to_front(r@),
        r@.len() == tris@.len(),
        r@.to_multiset() == tris@.to_multiset(),
{
    let mut out: Vec<ProjectedTri> = Vec::new();
    let mut i: usize = 0;
    proof {
        assert(out@ =~= sort_spec(tris@.subrange(0, 0)));
    }
    while i < tris.len()
        invariant
            0 <= i <= tris@.len(),
            out@ == sort_spec(tris@.subrange(0, i as int)),
        decreases tris@.len() - i,
    {
        let tri = tris[i];
        out = insert_sorted(out, tri);
        proof {
            let pre = tris@.subrange(0, i as int);
            let cur = tris@.subrange(0, i + 1);
            assert(cur.drop_last() =~= pre);
            assert(cur.last() == tris@[i as int]);
        }
        i = i + 1;
    }
    proof {
        assert(tris@.subrange(0, tris@.len() as int) =~= tris@);
        lemma_sort_spec_sorted(tris@);
    }
    out
}

} // verus!
