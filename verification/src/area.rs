//! Rectangular regions of a screen canvas and their algebra.
//!
//! An [`Area`] is given by its upper left and bottom right corners (both
//! inclusive), the offset it has inside the area it was carved from, the
//! size of the canvas it belongs to and the generation of that canvas.
use vstd::prelude::*;

use crate::sealed::Sealed;

verus! {

/// A position on the grid: `(column, row)`.
pub type Pos = (usize, usize);

/// Identity of one layout of a screen canvas; every resize draws a fresh one.
#[derive(Clone, Copy, Debug, Eq, Hash, Ord, PartialEq, PartialOrd)]
pub struct ScreenGeneration(pub (u64, u64));

impl ScreenGeneration {
    /// The generation of a canvas that was never laid out.
    pub open spec fn spec_nil() -> Self {
        ScreenGeneration((0, 0))
    }

    /// The generation of a canvas that was never laid out.
    pub fn nil() -> (r: Self)
        ensures
            r == Self::spec_nil(),
    {
        ScreenGeneration((0, 0))
    }
}

impl Default for ScreenGeneration {
    fn default() -> (r: Self)
        ensures
            r == ScreenGeneration::spec_nil(),
    {
        Self::nil()
    }
}

/// How a box is placed along one axis of an area.
#[derive(Clone, Copy, Debug, Eq, PartialEq, Structural)]
pub enum Alignment {
    /// Stretch over the whole axis.
    Fill,
    /// Stick to the start of the axis.
    Start,
    /// Stick to the end of the axis.
    End,
    /// Center on the axis.
    Center,
}

/// `p + inc`, coordinate-wise.
pub fn pos_inc(p: Pos, inc: (usize, usize)) -> (r: Pos)
    requires
        p.0 + inc.0 <= usize::MAX,
        p.1 + inc.1 <= usize::MAX,
    ensures
        r.0 == p.0 + inc.0,
        r.1 == p.1 + inc.1,
{
    (p.0 + inc.0, p.1 + inc.1)
}

/// The column of `p`.
pub fn get_x(p: Pos) -> (r: usize)
    ensures
        r == p.0,
{
    p.0
}

/// The row of `p`.
pub fn get_y(p: Pos) -> (r: usize)
    ensures
        r == p.1,
{
    p.1
}

/// `p` moved to column `new_x`.
pub fn set_x(p: Pos, new_x: usize) -> (r: Pos)
    ensures
        r == (new_x, p.1),
{
    (new_x, p.1)
}

/// `p` moved to row `new_y`.
pub fn set_y(p: Pos, new_y: usize) -> (r: Pos)
    ensures
        r == (p.0, new_y),
{
    (p.0, new_y)
}

/// The mathematical content of an [`Area`].
pub struct AreaView {
    pub offset: (nat, nat),
    pub upper_left: (nat, nat),
    pub bottom_right: (nat, nat),
    pub empty: bool,
    pub canvas_cols: nat,
    pub canvas_rows: nat,
    pub generation: ScreenGeneration,
}

/// The smaller of two naturals.
pub open spec fn min_nat(a: nat, b: nat) -> nat {
    if a <= b {
        a
    } else {
        b
    }
}

/// `a - b`, or `0` when `b > a`.
pub open spec fn sat_sub(a: nat, b: nat) -> nat {
    if a >= b {
        (a - b) as nat
    } else {
        0
    }
}

impl AreaView {
    /// An area is empty when flagged so or when its corners are crossed.
    pub open spec fn is_empty(self) -> bool {
        self.empty || self.upper_left.0 > self.bottom_right.0 || self.upper_left.1
            > self.bottom_right.1
    }

    /// Number of columns.
    pub open spec fn width(self) -> nat {
        if self.is_empty() {
            0
        } else {
            (self.bottom_right.0 - self.upper_left.0 + 1) as nat
        }
    }

    /// Number of rows.
    pub open spec fn height(self) -> nat {
        if self.is_empty() {
            0
        } else {
            (self.bottom_right.1 - self.upper_left.1 + 1) as nat
        }
    }

    /// The empty area of the same canvas and generation.
    pub open spec fn into_empty(self) -> AreaView {
        AreaView { offset: (0, 0), upper_left: (0, 0), bottom_right: (0, 0), empty: true, ..self }
    }

    /// The area without its first `n` rows.
    pub open spec fn skip_rows(self, n: nat) -> AreaView {
        if self.is_empty() || n >= self.height() {
            self.into_empty()
        } else {
            AreaView {
                offset: (self.offset.0, self.offset.1 + n),
                upper_left: (self.upper_left.0, self.upper_left.1 + n),
                ..self
            }
        }
    }

    /// The area without its first `n` columns.
    pub open spec fn skip_cols(self, n: nat) -> AreaView {
        if self.is_empty() || n >= self.width() {
            self.into_empty()
        } else {
            AreaView {
                offset: (self.offset.0 + n, self.offset.1),
                upper_left: (self.upper_left.0 + n, self.upper_left.1),
                ..self
            }
        }
    }

    /// The bottom edge moved up by `min(n, height)` rows; the result is the
    /// empty area when that would move it above row 0.
    pub open spec fn skip_rows_from_end(self, n: nat) -> AreaView {
        let n = min_nat(n, self.height());
        if self.is_empty() || self.bottom_right.1 < n {
            self.into_empty()
        } else {
            AreaView {
                bottom_right: (self.bottom_right.0, (self.bottom_right.1 - n) as nat),
                ..self
            }
        }
    }

    /// The right edge moved left by `min(n, width)` columns; the result is the
    /// empty area when that would move it left of column 0.
    pub open spec fn skip_cols_from_end(self, n: nat) -> AreaView {
        let n = min_nat(n, self.width());
        if self.is_empty() || self.bottom_right.0 < n {
            self.into_empty()
        } else {
            AreaView {
                bottom_right: ((self.bottom_right.0 - n) as nat, self.bottom_right.1),
                ..self
            }
        }
    }

    /// Only the first `min(n, height)` rows.
    pub open spec fn take_rows(self, n: nat) -> AreaView {
        self.skip_rows_from_end(sat_sub(self.height(), n))
    }

    /// Only the first `min(n, width)` columns.
    pub open spec fn take_cols(self, n: nat) -> AreaView {
        self.skip_cols_from_end(sat_sub(self.width(), n))
    }

    /// `n` clamped to the last index of a line `len` long.
    pub open spec fn clamp_last(n: nat, len: nat) -> nat {
        if n < len {
            n
        } else {
            sat_sub(len, 1)
        }
    }

    /// Row `n` of the area, or its last row past the end; the empty area
    /// of an empty area.
    pub open spec fn nth_row(self, n: nat) -> AreaView {
        let n = Self::clamp_last(n, self.height());
        if self.is_empty() {
            self.into_empty()
        } else {
            AreaView {
                offset: (self.offset.0, self.offset.1 + n),
                upper_left: (self.upper_left.0, self.upper_left.1 + n),
                bottom_right: (self.bottom_right.0, self.upper_left.1 + n),
                ..self
            }
        }
    }

    /// Column `n` of the area, or its last column past the end; the empty
    /// area of an empty area. The offset moves by the absolute column
    /// reached.
    pub open spec fn nth_col(self, n: nat) -> AreaView {
        let n = Self::clamp_last(n, self.width());
        if self.is_empty() {
            self.into_empty()
        } else {
            AreaView {
                offset: (self.offset.0 + self.upper_left.0 + n, self.offset.1),
                upper_left: (self.upper_left.0 + n, self.upper_left.1),
                bottom_right: (self.upper_left.0 + n, self.bottom_right.1),
                ..self
            }
        }
    }

    /// Both skips in turn: first `n_cols` columns, then `n_rows` rows.
    pub open spec fn skip(self, n_cols: nat, n_rows: nat) -> AreaView {
        self.skip_cols(n_cols).skip_rows(n_rows)
    }

    /// Both takes in turn: first `n_cols` columns, then `n_rows` rows.
    pub open spec fn take(self, n_cols: nat, n_rows: nat) -> AreaView {
        self.take_cols(n_cols).take_rows(n_rows)
    }

    /// Skipping `n` rows keeps the offset representable.
    pub open spec fn skip_rows_fits(self, n: nat) -> bool {
        !(self.is_empty() || n >= self.height()) ==> self.offset.1 + n <= usize::MAX
    }

    /// Skipping `n` columns keeps the offset representable.
    pub open spec fn skip_cols_fits(self, n: nat) -> bool {
        !(self.is_empty() || n >= self.width()) ==> self.offset.0 + n <= usize::MAX
    }

    /// Skipping `n_cols` columns and then `n_rows` rows keeps the offset
    /// representable.
    pub open spec fn skip_fits(self, n_cols: nat, n_rows: nat) -> bool {
        self.skip_cols_fits(n_cols) && self.skip_cols(n_cols).skip_rows_fits(n_rows)
    }

    /// Taking row `n` keeps the offset representable.
    pub open spec fn nth_row_fits(self, n: nat) -> bool {
        !self.is_empty() ==> self.offset.1 + Self::clamp_last(n, self.height()) <= usize::MAX
    }

    /// Taking column `n` keeps the offset representable.
    pub open spec fn nth_col_fits(self, n: nat) -> bool {
        !self.is_empty() ==> self.offset.0 + self.upper_left.0 + Self::clamp_last(n, self.width())
            <= usize::MAX
    }

    /// Left column of a `width` wide box placed at the left (`upper`) or the
    /// right edge, two cells in.
    pub open spec fn place_x(self, width: nat, upper: bool) -> nat {
        if upper {
            self.upper_left.0 + 2
        } else {
            sat_sub(sat_sub(self.bottom_right.0, 2), width)
        }
    }

    /// Top row of a `height` tall box placed at the top (`left`) or the
    /// bottom edge, two cells in.
    pub open spec fn place_y(self, height: nat, left: bool) -> nat {
        if left {
            self.upper_left.1 + 2
        } else {
            sat_sub(sat_sub(self.bottom_right.1, 2), height)
        }
    }

    /// Upper left corner of a placed box, clamped to the area.
    pub open spec fn placed_upper_left(self, width: nat, height: nat, upper: bool, left: bool) -> (
        nat,
        nat,
    ) {
        (
            min_nat(self.place_x(width, upper), self.bottom_right.0),
            min_nat(self.place_y(height, left), self.bottom_right.1),
        )
    }

    /// A `(width, height)` box two cells inside the corner chosen by
    /// `upper` and `left`, clamped to the area; boxes under 3 cells on a
    /// side, and empty areas, give the area itself.
    pub open spec fn place_inside(self, width: nat, height: nat, upper: bool, left: bool) -> AreaView {
        if self.is_empty() || width < 3 || height < 3 {
            self
        } else {
            let x = self.place_x(width, upper);
            let y = self.place_y(height, left);
            let ul = self.placed_upper_left(width, height, upper, left);
            AreaView {
                offset: (
                    (self.offset.0 + (ul.0 - self.upper_left.0)) as nat,
                    (self.offset.1 + (ul.1 - self.upper_left.1)) as nat,
                ),
                upper_left: ul,
                bottom_right: (
                    min_nat(x + width, self.bottom_right.0),
                    min_nat(y + height, self.bottom_right.1),
                ),
                ..self
            }
        }
    }

    /// The computation of a placed box stays within `usize` and never moves
    /// the box above or left of the area.
    pub open spec fn place_inside_fits(self, width: nat, height: nat, upper: bool, left: bool) -> bool {
        !(self.is_empty() || width < 3 || height < 3) ==> {
            let x = self.place_x(width, upper);
            let y = self.place_y(height, left);
            let ul = self.placed_upper_left(width, height, upper, left);
            &&& x <= usize::MAX
            &&& y <= usize::MAX
            &&& x + width <= usize::MAX
            &&& y + height <= usize::MAX
            &&& ul.0 >= self.upper_left.0
            &&& ul.1 >= self.upper_left.1
            &&& self.offset.0 + (ul.0 - self.upper_left.0) <= usize::MAX
            &&& self.offset.1 + (ul.1 - self.upper_left.1) <= usize::MAX
        }
    }

    /// Leading gap and extent of a `len` long box aligned along an axis of
    /// length `axis`, for the horizontal axis.
    pub open spec fn horizontal_placement(axis: nat, len: nat, alignment: Alignment) -> (nat, nat) {
        match alignment {
            Alignment::Center => (
                ((if axis / 2 >= len / 2 { axis / 2 } else { len / 2 }) - len / 2) as nat,
                len,
            ),
            Alignment::Start => (0, min_nat(axis, len)),
            Alignment::End => (sat_sub(axis, len), min_nat(axis, len)),
            Alignment::Fill => (0, axis),
        }
    }

    /// Leading gap and extent of a `len` long box aligned along an axis of
    /// length `axis`, for the vertical axis.
    pub open spec fn vertical_placement(axis: nat, len: nat, alignment: Alignment) -> (nat, nat) {
        match alignment {
            Alignment::Center => (
                ((if axis / 2 >= len / 2 { axis / 2 } else { len / 2 }) - len / 2) as nat,
                min_nat(axis, len),
            ),
            Alignment::Start => (0, min_nat(axis, len)),
            Alignment::End => (sat_sub(axis, len), axis),
            Alignment::Fill => (0, axis),
        }
    }

    /// A `(width, height)` box aligned inside the area; empty areas and
    /// boxes with a zero side give the area itself.
    pub open spec fn align_inside(
        self,
        width: nat,
        height: nat,
        horizontal: Alignment,
        vertical: Alignment,
    ) -> AreaView {
        if self.is_empty() || width == 0 || height == 0 {
            self
        } else {
            let (top_x, w) = Self::horizontal_placement(self.width(), width, horizontal);
            let (top_y, h) = Self::vertical_placement(self.height(), height, vertical);
            self.skip(top_x, top_y).take(w, h)
        }
    }

    /// The skip behind an alignment keeps the offset representable.
    pub open spec fn align_inside_fits(
        self,
        width: nat,
        height: nat,
        horizontal: Alignment,
        vertical: Alignment,
    ) -> bool {
        !(self.is_empty() || width == 0 || height == 0) ==> {
            let (top_x, w) = Self::horizontal_placement(self.width(), width, horizontal);
            let (top_y, h) = Self::vertical_placement(self.height(), height, vertical);
            self.skip_fits(top_x, top_y)
        }
    }

    /// Whether `other` lies within this area. Nothing lies within an empty
    /// area; an empty area lies within every non-empty one.
    pub open spec fn contains(self, other: AreaView) -> bool {
        if self.is_empty() {
            false
        } else if other.is_empty() {
            true
        } else {
            other.bottom_right.1 <= self.bottom_right.1 && other.upper_left.0 >= self.upper_left.0
                && other.upper_left.1 >= self.upper_left.1 && other.bottom_right.0
                <= self.bottom_right.0
        }
    }
}

/// An `Area` consists of two points: the upper left and bottom right corners.
#[derive(Clone, Copy, Debug, Eq, Hash, PartialEq)]
pub struct Area {
    offset: Pos,
    upper_left: Pos,
    bottom_right: Pos,
    empty: bool,
    canvas_cols: usize,
    canvas_rows: usize,
    generation: ScreenGeneration,
}

impl View for Area {
    type V = AreaView;

    closed spec fn view(&self) -> AreaView {
        AreaView {
            offset: (self.offset.0 as nat, self.offset.1 as nat),
            upper_left: (self.upper_left.0 as nat, self.upper_left.1 as nat),
            bottom_right: (self.bottom_right.0 as nat, self.bottom_right.1 as nat),
            empty: self.empty,
            canvas_cols: self.canvas_cols as nat,
            canvas_rows: self.canvas_rows as nat,
            generation: self.generation,
        }
    }
}

impl Area {
    /// The bottom right corner never sits on the last representable
    /// coordinate, so widths and heights always fit in a `usize`.
    #[verifier::type_invariant]
    closed spec fn inv(self) -> bool {
        self.bottom_right.0 < usize::MAX && self.bottom_right.1 < usize::MAX
    }

    /// The full area of a `cols` by `rows` canvas of generation `generation`.
    pub fn canvas(cols: usize, rows: usize, generation: ScreenGeneration) -> (r: Self)
        ensures
            r@.offset == (0nat, 0nat),
            r@.upper_left == (0nat, 0nat),
            r@.bottom_right == (sat_sub(cols as nat, 1), sat_sub(rows as nat, 1)),
            r@.empty == (cols == 0 && rows == 0),
            r@.canvas_cols == cols,
            r@.canvas_rows == rows,
            r@.generation == generation,
    {
        let upper_left = (0, 0);
        let bottom_right = (cols.saturating_sub(1), rows.saturating_sub(1));
        Area {
            offset: upper_left,
            upper_left,
            bottom_right,
            empty: cols == 0 && rows == 0,
            canvas_cols: cols,
            canvas_rows: rows,
            generation,
        }
    }

    #[inline]
    pub fn height(&self) -> (r: usize)
        ensures
            r == self@.height(),
    {
        proof {
            use_type_invariant(self);
        }
        if self.is_empty() {
            return 0;
        }
        get_y(self.bottom_right).saturating_sub(get_y(self.upper_left)) + 1
    }

    #[inline]
    pub fn width(&self) -> (r: usize)
        ensures
            r == self@.width(),
    {
        proof {
            use_type_invariant(self);
        }
        if self.is_empty() {
            return 0;
        }
        get_x(self.bottom_right).saturating_sub(get_x(self.upper_left)) + 1
    }

    #[inline]
    pub fn size(&self) -> (r: (usize, usize))
        ensures
            r.0 == self@.width(),
            r.1 == self@.height(),
    {
        (self.width(), self.height())
    }

    #[inline]
    pub fn is_empty(&self) -> (r: bool)
        ensures
            r == self@.is_empty(),
    {
        self.empty || (self.upper_left.0 > self.bottom_right.0 || self.upper_left.1
            > self.bottom_right.1)
    }

    #[inline]
    pub fn upper_left(&self) -> (r: Pos)
        ensures
            r.0 == self@.upper_left.0,
            r.1 == self@.upper_left.1,
    {
        self.upper_left
    }

    #[inline]
    pub fn bottom_right(&self) -> (r: Pos)
        ensures
            r.0 == self@.bottom_right.0,
            r.1 == self@.bottom_right.1,
            r.0 < usize::MAX,
            r.1 < usize::MAX,
    {
        proof {
            use_type_invariant(self);
        }
        self.bottom_right
    }

    #[inline]
    pub fn upper_right(&self) -> (r: Pos)
        ensures
            r.0 == self@.bottom_right.0,
            r.1 == self@.upper_left.1,
    {
        set_x(self.upper_left, get_x(self.bottom_right))
    }

    #[inline]
    pub fn bottom_left(&self) -> (r: Pos)
        ensures
            r.0 == self@.upper_left.0,
            r.1 == self@.bottom_right.1,
    {
        set_y(self.upper_left, get_y(self.bottom_right))
    }

    #[inline]
    pub fn offset(&self) -> (r: Pos)
        ensures
            r.0 == self@.offset.0,
            r.1 == self@.offset.1,
    {
        self.offset
    }

    #[inline]
    pub fn generation(&self) -> (r: ScreenGeneration)
        ensures
            r == self@.generation,
    {
        self.generation
    }

    /// Get `n`th row of `area` or its last one.
    #[inline]
    pub fn nth_row(&self, n: usize) -> (r: Self)
        requires
            self@.nth_row_fits(n as nat),
        ensures
            r@ == self@.nth_row(n as nat),
    {
        proof {
            use_type_invariant(self);
        }
        let Self { offset, upper_left, bottom_right, empty, canvas_cols, canvas_rows, generation } =
            *self;
        let h = self.height();
        if self.is_empty() {
            return self.into_empty();
        }
        let n = if n < h { n } else { h - 1 };
        let y = get_y(upper_left) + n;
        Self {
            offset: pos_inc(offset, (0, n)),
            upper_left: set_y(upper_left, y),
            bottom_right: set_y(bottom_right, y),
            empty,
            canvas_cols,
            canvas_rows,
            generation,
        }
    }

    /// Get `n`th col of `area` or its last one.
    #[inline]
    pub fn nth_col(&self, n: usize) -> (r: Self)
        requires
            self@.nth_col_fits(n as nat),
        ensures
            r@ == self@.nth_col(n as nat),
    {
        proof {
            use_type_invariant(self);
        }
        let Self { offset, upper_left, bottom_right, empty, canvas_cols, canvas_rows, generation } =
            *self;
        let w = self.width();
        if self.is_empty() {
            return self.into_empty();
        }
        let n = if n < w { n } else { w - 1 };
        let x = get_x(upper_left) + n;
        Self {
            offset: pos_inc(offset, (x, 0)),
            upper_left: set_x(upper_left, x),
            bottom_right: set_x(bottom_right, x),
            empty,
            canvas_cols,
            canvas_rows,
            generation,
        }
    }

    /// Place box given by `(width, height)` in corner of `area`
    pub fn place_inside(&self, dims: (usize, usize), upper: bool, left: bool) -> (r: Self)
        requires
            self@.place_inside_fits(dims.0 as nat, dims.1 as nat, upper, left),
        ensures
            r@ == self@.place_inside(dims.0 as nat, dims.1 as nat, upper, left),
    {
        proof {
            use_type_invariant(self);
        }
        let (width, height) = dims;
        if self.is_empty() || width < 3 || height < 3 {
            return *self;
        }
        let (upper_x, upper_y) = self.upper_left;
        let (max_x, max_y) = self.bottom_right;
        let x = if upper {
            upper_x + 2
        } else {
            max_x.saturating_sub(2).saturating_sub(width)
        };
        let y = if left {
            upper_y + 2
        } else {
            max_y.saturating_sub(2).saturating_sub(height)
        };
        let upper_left = (if x < max_x { x } else { max_x }, if y < max_y { y } else { max_y });
        let bottom_right = (
            if x + width < max_x { x + width } else { max_x },
            if y + height < max_y { y + height } else { max_y },
        );
        Self {
            offset: pos_inc(
                self.offset,
                (
                    (get_x(upper_left) - get_x(self.upper_left)),
                    (get_y(upper_left) - get_y(self.upper_left)),
                ),
            ),
            upper_left,
            bottom_right,
            empty: self.empty,
            canvas_cols: self.canvas_cols,
            canvas_rows: self.canvas_rows,
            generation: self.generation,
        }
    }

    /// Place given area of dimensions `(width, height)` inside `area` according
    /// to given alignment
    pub fn align_inside(
        &self,
        dims: (usize, usize),
        horizontal_alignment: Alignment,
        vertical_alignment: Alignment,
    ) -> (r: Self)
        requires
            self@.align_inside_fits(
                dims.0 as nat,
                dims.1 as nat,
                horizontal_alignment,
                vertical_alignment,
            ),
        ensures
            r@ == self@.align_inside(
                dims.0 as nat,
                dims.1 as nat,
                horizontal_alignment,
                vertical_alignment,
            ),
    {
        let (width, height) = dims;
        if self.is_empty() || width == 0 || height == 0 {
            return *self;
        }
        let self_width = self.width();
        let self_height = self.height();
        let (top_x, width) = match horizontal_alignment {
            Alignment::Center => (
                (if self_width / 2 >= width / 2 { self_width / 2 } else { width / 2 }) - width / 2,
                width,
            ),
            Alignment::Start => (0, if self_width < width { self_width } else { width }),
            Alignment::End => (
                self_width.saturating_sub(width),
                if self_width < width { self_width } else { width },
            ),
            Alignment::Fill => (0, self_width),
        };
        let (top_y, height) = match vertical_alignment {
            Alignment::Center => (
                (if self_height / 2 >= height / 2 { self_height / 2 } else { height / 2 }) - height
                    / 2,
                if self_height < height { self_height } else { height },
            ),
            Alignment::Start => (0, if self_height < height { self_height } else { height }),
            Alignment::End => (self_height.saturating_sub(height), self_height),
            Alignment::Fill => (0, self_height),
        };
        self.skip(top_x, top_y).take(width, height)
    }

    /// Place box given by `dimensions` in center of `area`
    #[inline]
    pub fn center_inside(&self, dimensions: (usize, usize)) -> (r: Self)
        requires
            self@.align_inside_fits(
                dimensions.0 as nat,
                dimensions.1 as nat,
                Alignment::Center,
                Alignment::Center,
            ),
        ensures
            r@ == self@.align_inside(
                dimensions.0 as nat,
                dimensions.1 as nat,
                Alignment::Center,
                Alignment::Center,
            ),
    {
        self.align_inside(dimensions, Alignment::Center, Alignment::Center)
    }

    /// Whether `other` lies within this area.
    #[inline]
    pub fn contains(&self, other: Self) -> (r: bool)
        requires
            self@.generation == other@.generation,
        ensures
            r == self@.contains(other@),
    {
        if self.is_empty() {
            return false;
        } else if other.is_empty() {
            return true;
        }
        get_y(other.bottom_right) <= get_y(self.bottom_right) && get_x(other.upper_left) >= get_x(
            self.upper_left,
        ) && get_y(other.upper_left) >= get_y(self.upper_left) && get_x(other.bottom_right)
            <= get_x(self.bottom_right)
    }

    /// Skip `n` rows and return the remaining area.
    /// Return value will be an empty area if `n` is more than the height.
    #[inline]
    pub fn skip_rows(&self, n: usize) -> (r: Self)
        requires
            self@.skip_rows_fits(n as nat),
        ensures
            r@ == self@.skip_rows(n as nat),
    {
        proof {
            use_type_invariant(self);
        }
        let h = self.height();
        let n = if n < h { n } else { h };
        if self.is_empty() || self.upper_left.1 + n > self.bottom_right.1 {
            return self.into_empty();
        }
        Self {
            offset: pos_inc(self.offset, (0, n)),
            upper_left: pos_inc(self.upper_left, (0, n)),
            ..*self
        }
    }

    /// Skip the last `n` rows and return the remaining area.
    /// Return value will be an empty area if `n` is more than the height.
    #[inline]
    pub fn skip_rows_from_end(&self, n: usize) -> (r: Self)
        ensures
            r@ == self@.skip_rows_from_end(n as nat),
    {
        proof {
            use_type_invariant(self);
        }
        let h = self.height();
        let n = if n < h { n } else { h };
        if self.is_empty() || self.bottom_right.1 < n {
            return self.into_empty();
        }
        Self { bottom_right: (self.bottom_right.0, self.bottom_right.1 - n), ..*self }
    }

    #[inline]
    fn _skip_cols_inner(&self, n: usize) -> (r: Self)
        requires
            self@.skip_cols_fits(n as nat),
        ensures
            r@ == self@.skip_cols(n as nat),
    {
        proof {
            use_type_invariant(self);
        }
        let w = self.width();
        let n = if n < w { n } else { w };
        if self.is_empty() || self.bottom_right.0 < self.upper_left.0 + n {
            return self.into_empty();
        }
        Self {
            offset: pos_inc(self.offset, (n, 0)),
            upper_left: pos_inc(self.upper_left, (n, 0)),
            ..*self
        }
    }

    /// Skip the first `n` columns and return the remaining area.
    /// Return value will be an empty area if `n` is more than the width.
    #[inline]
    pub fn skip_cols<T: IntoColumns>(&self, n: T) -> (r: Self)
        requires
            self@.skip_cols_fits(n.columns()),
        ensures
            r@ == self@.skip_cols(n.columns()),
    {
        let n: usize = n.into();
        self._skip_cols_inner(n)
    }

    /// Skip the last `n` columns and return the remaining area.
    /// Return value will be an empty area if `n` is more than the width.
    #[inline]
    pub fn skip_cols_from_end(&self, n: usize) -> (r: Self)
        ensures
            r@ == self@.skip_cols_from_end(n as nat),
    {
        proof {
            use_type_invariant(self);
        }
        let w = self.width();
        let n = if n < w { n } else { w };
        if self.is_empty() || self.bottom_right.0 < n {
            return self.into_empty();
        }
        Self { bottom_right: (self.bottom_right.0 - n, self.bottom_right.1), ..*self }
    }

    /// Shortcut for using `Area::skip_cols` and `Area::skip_rows` together.
    #[inline]
    pub fn skip(&self, n_cols: usize, n_rows: usize) -> (r: Self)
        requires
            self@.skip_fits(n_cols as nat, n_rows as nat),
        ensures
            r@ == self@.skip(n_cols as nat, n_rows as nat),
    {
        self.skip_cols(n_cols).skip_rows(n_rows)
    }

    /// Take the first `n` rows and return the remaining area.
    /// Return value will be an empty area if `n` is more than the height.
    #[inline]
    pub fn take_rows(&self, n: usize) -> (r: Self)
        ensures
            r@ == self@.take_rows(n as nat),
    {
        proof {
            use_type_invariant(self);
        }
        let h = self.height();
        let n = if n < h { n } else { h };
        if self.is_empty() || self.bottom_right.1 < (h - n) {
            return self.into_empty();
        }
        Self { bottom_right: (self.bottom_right.0, self.bottom_right.1 - (h - n)), ..*self }
    }

    /// Take the first `n` columns and return the remaining area.
    /// Return value will be an empty area if `n` is more than the width.
    #[inline]
    pub fn take_cols(&self, n: usize) -> (r: Self)
        ensures
            r@ == self@.take_cols(n as nat),
    {
        proof {
            use_type_invariant(self);
        }
        let w = self.width();
        let n = if n < w { n } else { w };
        if self.is_empty() || self.bottom_right.0 < (w - n) {
            return self.into_empty();
        }
        Self { bottom_right: (self.bottom_right.0 - (w - n), self.bottom_right.1), ..*self }
    }

    /// Shortcut for using `Area::take_cols` and `Area::take_rows` together.
    #[inline]
    pub fn take(&self, n_cols: usize, n_rows: usize) -> (r: Self)
        ensures
            r@ == self@.take(n_cols as nat, n_rows as nat),
    {
        self.take_cols(n_cols).take_rows(n_rows)
    }

    /// An empty area of no canvas, of generation `generation`.
    #[inline]
    pub fn new_empty(generation: ScreenGeneration) -> (r: Self)
        ensures
            r@ == (AreaView {
                offset: (0, 0),
                upper_left: (0, 0),
                bottom_right: (0, 0),
                empty: true,
                canvas_cols: 0,
                canvas_rows: 0,
                generation,
            }),
    {
        Self {
            offset: (0, 0),
            upper_left: (0, 0),
            bottom_right: (0, 0),
            canvas_rows: 0,
            canvas_cols: 0,
            empty: true,
            generation,
        }
    }

    /// The empty area of the same canvas and generation.
    #[inline]
    pub fn into_empty(self) -> (r: Self)
        ensures
            r@ == self@.into_empty(),
    {
        Self { offset: (0, 0), upper_left: (0, 0), bottom_right: (0, 0), empty: true, ..self }
    }
}

/// Turns both single `usize` values and `(usize, _)` positions into an `x`
/// coordinate.
pub trait IntoColumns: Sealed {
    /// The column this value stands for.
    spec fn columns(&self) -> nat;

    /// The column this value stands for.
    fn into(self) -> (r: usize)
        ensures
            r == self.columns(),
    ;
}

impl Sealed for usize {}

impl Sealed for Pos {}

impl IntoColumns for usize {
    open spec fn columns(&self) -> nat {
        *self as nat
    }

    fn into(self) -> (r: usize) {
        self
    }
}

impl IntoColumns for Pos {
    open spec fn columns(&self) -> nat {
        self.0 as nat
    }

    fn into(self) -> (r: usize) {
        get_x(self)
    }
}

} // verus!
