//! What the area algebra guarantees: the sizes of skipped, taken and
//! aligned areas, and which of them lie within which.
use vstd::prelude::*;

use crate::area::{min_nat, Alignment, Area, AreaView};

verus! {

/// Skipping `n < height` rows of a non-empty area leaves a non-empty area,
/// `n` rows shorter, starting `n` rows lower, with the same columns.
pub proof fn lemma_skip_rows_shape(a: AreaView, n: nat)
    requires
        !a.is_empty(),
        n < a.height(),
    ensures
        !a.skip_rows(n).is_empty(),
        a.skip_rows(n).height() == a.height() - n,
        a.skip_rows(n).width() == a.width(),
        a.skip_rows(n).upper_left == (a.upper_left.0, a.upper_left.1 + n),
        a.skip_rows(n).bottom_right == a.bottom_right,
        a.skip_rows(n).generation == a.generation,
{
}

/// Skipping `n < width` columns of a non-empty area leaves a non-empty area,
/// `n` columns narrower, starting `n` columns further right, with the same
/// rows.
pub proof fn lemma_skip_cols_shape(a: AreaView, n: nat)
    requires
        !a.is_empty(),
        n < a.width(),
    ensures
        !a.skip_cols(n).is_empty(),
        a.skip_cols(n).width() == a.width() - n,
        a.skip_cols(n).height() == a.height(),
        a.skip_cols(n).upper_left == (a.upper_left.0 + n, a.upper_left.1),
        a.skip_cols(n).bottom_right == a.bottom_right,
        a.skip_cols(n).generation == a.generation,
{
}

/// Taking `1 <= n <= height` rows of a non-empty area keeps its upper left
/// corner and leaves exactly `n` rows.
pub proof fn lemma_take_rows_shape(a: AreaView, n: nat)
    requires
        !a.is_empty(),
        1 <= n <= a.height(),
    ensures
        !a.take_rows(n).is_empty(),
        a.take_rows(n).height() == n,
        a.take_rows(n).width() == a.width(),
        a.take_rows(n).upper_left == a.upper_left,
        a.take_rows(n).bottom_right == (a.bottom_right.0, (a.upper_left.1 + n - 1) as nat),
        a.take_rows(n).offset == a.offset,
        a.take_rows(n).generation == a.generation,
{
}

/// Taking `1 <= n <= width` columns of a non-empty area keeps its upper
/// left corner and leaves exactly `n` columns.
pub proof fn lemma_take_cols_shape(a: AreaView, n: nat)
    requires
        !a.is_empty(),
        1 <= n <= a.width(),
    ensures
        !a.take_cols(n).is_empty(),
        a.take_cols(n).width() == n,
        a.take_cols(n).height() == a.height(),
        a.take_cols(n).upper_left == a.upper_left,
        a.take_cols(n).bottom_right == ((a.upper_left.0 + n - 1) as nat, a.bottom_right.1),
        a.take_cols(n).offset == a.offset,
        a.take_cols(n).generation == a.generation,
{
}

/// Taking at least the whole height or width of a non-empty area gives the
/// area back.
pub proof fn lemma_take_all(a: AreaView, n: nat)
    requires
        !a.is_empty(),
    ensures
        n >= a.height() ==> a.take_rows(n) == a,
        n >= a.width() ==> a.take_cols(n) == a,
{
}

/// Skipping nothing gives the area back.
pub proof fn lemma_skip_nothing(a: AreaView)
    requires
        !a.is_empty(),
    ensures
        a.skip_rows(0) == a,
        a.skip_cols(0) == a,
        a.skip_rows_from_end(0) == a,
        a.skip_cols_from_end(0) == a,
{
}

/// Skipping `n` rows of an area `height` rows tall leaves `height - n` rows
/// (none when `n >= height`), and what is left lies within the area. For
/// `0 < n < height` the skipped part does not lie within the first `n` rows
/// taken; for `n == height` it does (an empty area lies within every
/// non-empty one).
pub proof fn law_skip_rows(a: Area, n: nat)
    requires
        !a@.is_empty(),
    ensures
        a@.skip_rows(n).height() == (if n >= a@.height() {
            0
        } else {
            (a@.height() - n) as nat
        }),
        a@.contains(a@.skip_rows(n)),
        0 < n < a@.height() ==> !a@.take_rows(n).contains(a@.skip_rows(n)),
        n == a@.height() ==> a@.take_rows(n).contains(a@.skip_rows(n)),
        a@.skip_rows(0) == a@,
{
    if n < a@.height() {
        lemma_skip_rows_shape(a@, n);
        if n > 0 {
            lemma_take_rows_shape(a@, n);
        }
    }
    lemma_take_all(a@, n);
}

/// The column counterpart of [`law_skip_rows`].
pub proof fn law_skip_cols(a: Area, n: nat)
    requires
        !a@.is_empty(),
    ensures
        a@.skip_cols(n).width() == (if n >= a@.width() {
            0
        } else {
            (a@.width() - n) as nat
        }),
        a@.contains(a@.skip_cols(n)),
        0 < n < a@.width() ==> !a@.take_cols(n).contains(a@.skip_cols(n)),
        n == a@.width() ==> a@.take_cols(n).contains(a@.skip_cols(n)),
        a@.skip_cols(0) == a@,
{
    if n < a@.width() {
        lemma_skip_cols_shape(a@, n);
        if n > 0 {
            lemma_take_cols_shape(a@, n);
        }
    }
    lemma_take_all(a@, n);
}

/// Skipping the last `n` rows leaves `height - n` rows (none when
/// `n >= height`), within the area; it is the same as taking the first
/// `height - n` rows.
pub proof fn law_skip_rows_from_end(a: Area, n: nat)
    requires
        !a@.is_empty(),
    ensures
        a@.skip_rows_from_end(n).height() == (if n >= a@.height() {
            0
        } else {
            (a@.height() - n) as nat
        }),
        a@.contains(a@.skip_rows_from_end(n)),
        n <= a@.height() ==> a@.skip_rows_from_end(n) == a@.take_rows((a@.height() - n) as nat),
        a@.skip_rows_from_end(0) == a@,
{
}

/// The column counterpart of [`law_skip_rows_from_end`].
pub proof fn law_skip_cols_from_end(a: Area, n: nat)
    requires
        !a@.is_empty(),
    ensures
        a@.skip_cols_from_end(n).width() == (if n >= a@.width() {
            0
        } else {
            (a@.width() - n) as nat
        }),
        a@.contains(a@.skip_cols_from_end(n)),
        n <= a@.width() ==> a@.skip_cols_from_end(n) == a@.take_cols((a@.width() - n) as nat),
        a@.skip_cols_from_end(0) == a@,
{
}

/// Taking the first `n` rows leaves `min(n, height)` rows, within the area;
/// taking none leaves the empty area and taking all gives the area back.
pub proof fn law_take_rows(a: Area, n: nat)
    requires
        !a@.is_empty(),
    ensures
        a@.take_rows(n).height() == min_nat(n, a@.height()),
        a@.contains(a@.take_rows(n)),
        a@.take_rows(0).is_empty(),
        a@.take_rows(a@.height()) == a@,
{
    if 1 <= n <= a@.height() {
        lemma_take_rows_shape(a@, n);
    }
    lemma_take_all(a@, n);
    lemma_take_all(a@, a@.height());
}

/// The column counterpart of [`law_take_rows`].
pub proof fn law_take_cols(a: Area, n: nat)
    requires
        !a@.is_empty(),
    ensures
        a@.take_cols(n).width() == min_nat(n, a@.width()),
        a@.contains(a@.take_cols(n)),
        a@.take_cols(0).is_empty(),
        a@.take_cols(a@.width()) == a@,
{
    if 1 <= n <= a@.width() {
        lemma_take_cols_shape(a@, n);
    }
    lemma_take_all(a@, n);
    lemma_take_all(a@, a@.width());
}

/// Row `n` is one row tall, as wide as the area, and lies within it; past
/// the end it is the last row. Row `n < height` contains row `n + 1`
/// exactly when that row does not exist (`n + 1 == height`). The column
/// counterpart holds for `nth_col`.
pub proof fn law_nth_row_and_col(a: Area, n: nat)
    requires
        !a@.is_empty(),
    ensures
        a@.nth_row(n).height() == 1,
        a@.nth_row(n).width() == a@.width(),
        n >= a@.height() ==> a@.nth_row(n) == a@.nth_row((a@.height() - 1) as nat),
        a@.nth_col(n).width() == 1,
        a@.nth_col(n).height() == a@.height(),
        n >= a@.width() ==> a@.nth_col(n) == a@.nth_col((a@.width() - 1) as nat),
        a@.contains(a@.nth_row(n)),
        n < a@.height() ==> (a@.nth_row(n).contains(a@.nth_row(n + 1)) <==> n + 1 == a@.height()),
        a@.contains(a@.nth_col(n)),
        n < a@.width() ==> (a@.nth_col(n).contains(a@.nth_col(n + 1)) <==> n + 1 == a@.width()),
{
}

/// Skipping columns and rows commutes, and skipping fewer columns and
/// rows than the area has leaves exactly the rest of both.
pub proof fn law_skip(a: Area, c: nat, r: nat)
    requires
        !a@.is_empty(),
    ensures
        a@.skip(c, r) == a@.skip_rows(r).skip_cols(c),
        c < a@.width() && r < a@.height() ==> a@.skip(c, r).width() == a@.width() - c
            && a@.skip(c, r).height() == a@.height() - r,
{
}

/// A box placed inside an area lies within it, as long as placing it did
/// not move it above or left of the area.
pub proof fn law_place_inside(a: Area, width: nat, height: nat, upper: bool, left: bool)
    requires
        !a@.is_empty(),
        a@.place_inside_fits(width, height, upper, left),
    ensures
        a@.contains(a@.place_inside(width, height, upper, left)),
{
}

/// A box with both sides at least one, aligned inside a non-empty area, is
/// non-empty and lies within the area. Along a `Fill` axis it spans the
/// whole area; along any other axis it is as long as asked, up to the
/// area's size. Filling both axes gives the area back.
pub proof fn law_align_inside(
    a: Area,
    width: nat,
    height: nat,
    horizontal: Alignment,
    vertical: Alignment,
)
    requires
        !a@.is_empty(),
        width >= 1,
        height >= 1,
    ensures
        !a@.align_inside(width, height, horizontal, vertical).is_empty(),
        a@.contains(a@.align_inside(width, height, horizontal, vertical)),
        a@.align_inside(width, height, horizontal, vertical).width() == (if horizontal
            == Alignment::Fill {
            a@.width()
        } else {
            min_nat(width, a@.width())
        }),
        a@.align_inside(width, height, horizontal, vertical).height() == (if vertical
            == Alignment::Fill {
            a@.height()
        } else {
            min_nat(height, a@.height())
        }),
        horizontal == Alignment::Fill && vertical == Alignment::Fill ==> a@.align_inside(
            width,
            height,
            horizontal,
            vertical,
        ) == a@,
{
    let v = a@;
    let (top_x, w) = AreaView::horizontal_placement(v.width(), width, horizontal);
    let (top_y, h) = AreaView::vertical_placement(v.height(), height, vertical);
    assert(top_x < v.width());
    assert(top_y < v.height());
    lemma_skip_cols_shape(v, top_x);
    let s1 = v.skip_cols(top_x);
    lemma_skip_rows_shape(s1, top_y);
    let s2 = s1.skip_rows(top_y);
    assert(s2 == v.skip(top_x, top_y));
    let wc = min_nat(w, s2.width());
    assert(wc >= 1);
    lemma_take_cols_shape(s2, wc);
    lemma_take_all(s2, w);
    assert(s2.take_cols(w) == s2.take_cols(wc)) by {
        if w < s2.width() {
        } else {
            lemma_take_cols_shape(s2, s2.width());
        }
    }
    let t1 = s2.take_cols(w);
    let hc = min_nat(h, t1.height());
    lemma_take_rows_shape(t1, hc);
    lemma_take_all(t1, h);
    assert(t1.take_rows(h) == t1.take_rows(hc)) by {
        if h < t1.height() {
        } else {
            lemma_take_rows_shape(t1, t1.height());
        }
    }
}

/// Where an aligned box sits, along each axis: `Start` puts it against
/// the area's first column (row), `End` against its last, and `Center`
/// leaves gaps on both sides that differ by at most one.
pub proof fn law_align_inside_edges(
    a: Area,
    width: nat,
    height: nat,
    horizontal: Alignment,
    vertical: Alignment,
)
    requires
        !a@.is_empty(),
        width >= 1,
        height >= 1,
    ensures
        ({
            let r = a@.align_inside(width, height, horizontal, vertical);
            let left = r.upper_left.0 - a@.upper_left.0;
            let right = a@.bottom_right.0 - r.bottom_right.0;
            let top = r.upper_left.1 - a@.upper_left.1;
            let bottom = a@.bottom_right.1 - r.bottom_right.1;
            &&& horizontal == Alignment::Start ==> r.upper_left.0 == a@.upper_left.0
            &&& horizontal == Alignment::End ==> r.bottom_right.0 == a@.bottom_right.0
            &&& horizontal == Alignment::Center ==> -1 <= left - right <= 1 && left >= 0 && right
                >= 0
            &&& vertical == Alignment::Start ==> r.upper_left.1 == a@.upper_left.1
            &&& vertical == Alignment::End ==> r.bottom_right.1 == a@.bottom_right.1
            &&& vertical == Alignment::Center ==> -1 <= top - bottom <= 1 && top >= 0 && bottom
                >= 0
        }),
{
}

} // verus!
