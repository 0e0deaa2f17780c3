//! What a redraw of the screen sends to the terminal: the dirty areas in
//! order of their left edge, the spans of each row to draw, whether the
//! floating message box was touched, and the rows to flush from the
//! overlay.
use vstd::prelude::*;
use crate::area::Pos;

verus! {

broadcast use {vstd::seq_lib::group_to_multiset_ensures, vstd::seq_lib::group_filter_ensures};

/// The upper left and the bottom right corner of an area, both inclusive.
pub type Corners = (Pos, Pos);

/// Whether the areas are in order of their left edge.
pub open spec fn sorted_by_left(s: Seq<Corners>) -> bool {
    forall|i: int, j: int| 0 <= i < j < s.len() ==> (#[trigger] s[i]).0.0 <= (#[trigger] s[j]).0.0
}

/// Whether an area's left edge is `x`.
pub open spec fn left_is(x: usize) -> spec_fn(Corners) -> bool {
    |c: Corners| c.0.0 == x
}

/// The areas with left edge `x` of `s`, in their order in `s`.
pub open spec fn with_left(s: Seq<Corners>, x: usize) -> Seq<Corners> {
    s.filter(left_is(x))
}

proof fn lemma_filter_one(a: Corners, x: usize)
    ensures
        seq![a].filter(left_is(x)) == (if a.0.0 == x {
            seq![a]
        } else {
            Seq::<Corners>::empty()
        }),
{
    reveal_with_fuel(Seq::filter, 2);
    assert(seq![a].drop_last() =~= Seq::<Corners>::empty());
}

proof fn lemma_filter_none(s: Seq<Corners>, x: usize)
    requires
        forall|k: int| 0 <= k < s.len() ==> (#[trigger] s[k]).0.0 != x,
    ensures
        with_left(s, x) == Seq::<Corners>::empty(),
{
    let f = s.filter(left_is(x));
    if f.len() > 0 {
        s.lemma_filter_pred(left_is(x), 0);
        s.lemma_filter_contains_rev(left_is(x), f[0]);
        assert(f.contains(f[0]));
    }
    assert(f =~= Seq::<Corners>::empty());
}

/// Inserting `a` before a tail of areas whose left edges all lie right of
/// its own appends `a` to the areas of its left edge and leaves the others.
proof fn lemma_insert_keeps_order(s: Seq<Corners>, j: int, a: Corners, x: usize)
    requires
        0 <= j <= s.len(),
        forall|k: int| j <= k < s.len() ==> (#[trigger] s[k]).0.0 > a.0.0,
    ensures
        with_left(s.insert(j, a), x) == (if a.0.0 == x {
            with_left(s, x).push(a)
        } else {
            with_left(s, x)
        }),
{
    let p = left_is(x);
    let head = s.take(j);
    let tail = s.skip(j);
    assert(s.insert(j, a) =~= head + seq![a] + tail);
    assert(s =~= head + tail);
    Seq::filter_distributes_over_add(head + seq![a], tail, p);
    Seq::filter_distributes_over_add(head, seq![a], p);
    Seq::filter_distributes_over_add(head, tail, p);
    lemma_filter_one(a, x);
    if a.0.0 == x {
        assert forall|k: int| 0 <= k < tail.len() implies (#[trigger] tail[k]).0.0 != x by {
            assert(tail[k] == s[j + k]);
        }
        lemma_filter_none(tail, x);
        assert(head.filter(p) + seq![a] =~= head.filter(p).push(a));
        assert(head.filter(p) + tail.filter(p) =~= head.filter(p));
    } else {
        assert(head.filter(p) + Seq::<Corners>::empty() =~= head.filter(p));
    }
}

/// The dirty areas in order of their left edge, areas with the same left
/// edge in the order they came.
pub fn sort_by_left_edge(areas: &Vec<Corners>) -> (r: Vec<Corners>)
    ensures
        sorted_by_left(r@),
        r@.to_multiset() == areas@.to_multiset(),
        forall|x: usize| #[trigger] with_left(r@, x) == with_left(areas@, x),
{
    let mut r: Vec<Corners> = Vec::new();
    let mut i: usize = 0;
    proof {
        assert(areas@.take(0) =~= Seq::<Corners>::empty());
    }
    while i < areas.len()
        invariant
            i <= areas@.len(),
            sorted_by_left(r@),
            r@.to_multiset() == areas@.take(i as int).to_multiset(),
            forall|x: usize| #[trigger] with_left(r@, x) == with_left(areas@.take(i as int), x),
            r@.len() == i,
        decreases areas@.len() - i,
    {
        let a = areas[i];
        let mut j: usize = r.len();
        while j > 0 && r[j - 1].0.0 > a.0.0
            invariant
                j <= r@.len(),
                forall|k: int| j <= k < r@.len() ==> (#[trigger] r@[k]).0.0 > a.0.0,
            decreases j,
        {
            j = j - 1;
        }
        let ghost before = r@;
        r.insert(j, a);
        proof {
            vstd::seq_lib::to_multiset_insert(before, j as int, a);
            assert(areas@.take(i + 1) =~= areas@.take(i as int).push(a));
            vstd::seq_lib::to_multiset_build(areas@.take(i as int), a);
            assert forall|x: usize| #[trigger] with_left(r@, x) == with_left(areas@.take(i + 1), x) by {
                lemma_insert_keeps_order(before, j as int, a, x);
                Seq::filter_distributes_over_add(areas@.take(i as int), seq![a], left_is(x));
                lemma_filter_one(a, x);
                assert(areas@.take(i as int).push(a) =~= areas@.take(i as int) + seq![a]);
                if a.0.0 == x {
                    assert(with_left(areas@.take(i as int), x) + seq![a] =~= with_left(
                        areas@.take(i as int),
                        x,
                    ).push(a));
                } else {
                    assert(with_left(areas@.take(i as int), x) + Seq::<Corners>::empty()
                        =~= with_left(areas@.take(i as int), x));
                }
            }
            assert forall|p: int, q: int| 0 <= p < q < r@.len() implies (#[trigger] r@[p]).0.0
                <= (#[trigger] r@[q]).0.0 by {
                if q < j {
                    assert(r@[p] == before[p] && r@[q] == before[q]);
                } else if q == j {
                    assert(r@[p] == before[p]);
                } else if p == j {
                    assert(r@[q] == before[q - 1]);
                } else if p < j {
                    assert(r@[p] == before[p] && r@[q] == before[q - 1]);
                } else {
                    assert(r@[p] == before[p - 1] && r@[q] == before[q - 1]);
                }
            }
        }
        i = i + 1;
    }
    proof {
        assert(areas@.take(i as int) =~= areas@);
    }
    r
}

/// Whether an area reaches row `y`.
pub open spec fn covers_row(a: Corners, y: usize) -> bool {
    a.0.1 <= y && y <= a.1.1
}

/// The spans of row `y` to draw, from the first and the last column of
/// each area that reaches the row, in the order of the areas.
pub open spec fn row_spans(areas: Seq<Corners>, y: usize) -> Seq<(usize, usize)>
    decreases areas.len(),
{
    if areas.len() == 0 {
        Seq::empty()
    } else {
        let rest = row_spans(areas.drop_last(), y);
        let a = areas.last();
        if covers_row(a, y) {
            rest.push((a.0.0, a.1.0))
        } else {
            rest
        }
    }
}

/// The spans of row `y` to draw, as [`row_spans`] states it: each span
/// goes from its first to its last column.
pub fn row_segments(areas: &Vec<Corners>, y: usize) -> (r: Vec<(usize, usize)>)
    ensures
        r@ == row_spans(areas@, y),
{
    let mut out: Vec<(usize, usize)> = Vec::new();
    let mut segment: Option<(usize, usize)> = None;
    let mut i: usize = 0;
    while i < areas.len()
        invariant
            i <= areas@.len(),
            match segment {
                Some(s) => out@.push(s) == row_spans(areas@.take(i as int), y),
                None => out@ == row_spans(areas@.take(i as int), y),
            },
        decreases areas@.len() - i,
    {
        let a = areas[i];
        proof {
            assert(areas@.take(i + 1).drop_last() =~= areas@.take(i as int));
        }
        if a.0.1 <= y && y <= a.1.1 {
            if let Some(s) = segment {
                out.push(s);
            }
            segment = Some((a.0.0, a.1.0));
        }
        i = i + 1;
    }
    proof {
        assert(areas@.take(i as int) =~= areas@);
    }
    if let Some(s) = segment {
        out.push(s);
    }
    out
}

/// Whether two areas share a cell.
pub open spec fn overlaps(a: Corners, d: Corners) -> bool {
    !(a.1.1 < d.0.1 || d.1.1 < a.0.1 || a.1.0 < d.0.0 || d.1.0 < a.0.0)
}

/// Whether the message box over `displ` must be drawn again: when it was
/// already, or when a dirty area shares a cell with it.
pub fn message_box_dirty(displ: Corners, areas: &Vec<Corners>, was_dirty: bool) -> (r: bool)
    ensures
        r == (was_dirty || exists|i: int| 0 <= i < areas@.len() && overlaps(#[trigger] areas@[i], displ)),
{
    let mut dirty = was_dirty;
    let mut i: usize = 0;
    while i < areas.len()
        invariant
            i <= areas@.len(),
            dirty == (was_dirty || exists|k: int| 0 <= k < i && overlaps(#[trigger] areas@[k], displ)),
        decreases areas@.len() - i,
    {
        let a = areas[i];
        let (top_x, top_y) = a.0;
        let (bottom_x, bottom_y) = a.1;
        dirty = dirty || !(bottom_y < displ.0.1 || displ.1.1 < top_y || bottom_x < displ.0.0
            || displ.1.0 < top_x);
        proof {
            if overlaps(a, displ) {
                assert(areas@[i as int] == a);
            }
        }
        i = i + 1;
    }
    dirty
}

/// Whether some area reaches row `y`.
pub open spec fn some_area_covers(areas: Seq<Corners>, y: usize) -> bool {
    exists|i: int| 0 <= i < areas.len() && covers_row(#[trigger] areas[i], y)
}

/// The rows to flush from the overlay grid of `height` rows: every row
/// when the overlay itself changed; else the rows that some dirty area
/// reaches. Either way below `height`, in order, each once.
pub fn overlay_dirty_rows(areas: &Vec<Corners>, height: usize, overlay_dirty: bool) -> (r: Vec<usize>)
    ensures
        forall|i: int, j: int| 0 <= i < j < r@.len() ==> #[trigger] r@[i] < #[trigger] r@[j],
        forall|y: usize| r@.contains(y) <==> (y < height && (overlay_dirty || some_area_covers(areas@, y))),
{
    let mut out: Vec<usize> = Vec::new();
    let mut y: usize = 0;
    while y < height
        invariant
            y <= height,
            forall|i: int, j: int| 0 <= i < j < out@.len() ==> #[trigger] out@[i] < #[trigger] out@[j],
            forall|i: int| 0 <= i < out@.len() ==> #[trigger] out@[i] < y,
            forall|z: usize| out@.contains(z) <==> (z < y && (overlay_dirty || some_area_covers(areas@, z))),
        decreases height - y,
    {
        let mut hit = overlay_dirty;
        let mut i: usize = 0;
        while i < areas.len() && !hit
            invariant
                i <= areas@.len(),
                hit ==> (overlay_dirty || some_area_covers(areas@, y)),
                !hit ==> !overlay_dirty && forall|k: int| 0 <= k < i ==> !covers_row(#[trigger] areas@[k], y),
            decreases areas@.len() - i,
        {
            let a = areas[i];
            if a.0.1 <= y && y <= a.1.1 {
                hit = true;
                assert(covers_row(areas@[i as int], y));
            }
            i = i + 1;
        }
        let ghost before = out@;
        if hit {
            out.push(y);
        }
        proof {
            assert forall|z: usize| out@.contains(z) <==> (z < y + 1 && (overlay_dirty || some_area_covers(areas@, z))) by {
                if out@.contains(z) {
                    if z != y {
                        let k = choose|k: int| 0 <= k < out@.len() && out@[k] == z;
                        assert(before[k] == z);
                        assert(before.contains(z));
                    }
                }
                if z < y && (overlay_dirty || some_area_covers(areas@, z)) {
                    assert(before.contains(z));
                    let k = choose|k: int| 0 <= k < before.len() && before[k] == z;
                    assert(out@[k] == z);
                }
                if z == y && (overlay_dirty || some_area_covers(areas@, z)) {
                    assert(hit);
                    assert(out@[out@.len() - 1] == y);
                }
            }
        }
        y = y + 1;
    }
    out
}

} // verus!
