//! Areas carved through ratatui's layout solver: conversions between
//! areas and ratatui rectangles (`(x, y, width, height)`), and the
//! centred box of the area algebra, placed by a two-segment `Layout` on
//! each axis.
use vstd::prelude::*;
use ratatui::layout::{Constraint, Layout, Rect};
use crate::area::{sat_sub, Area, AreaView};

verus! {

/// A ratatui rectangle as plain values: column, row, width, height.
pub type RectTuple = (u16, u16, u16, u16);

/// The rectangle of an area: its upper left corner and its size, each
/// cast to `u16` (truncated beyond it).
pub open spec fn area_to_rect_spec(a: AreaView) -> RectTuple {
    (a.upper_left.0 as u16, a.upper_left.1 as u16, a.width() as u16, a.height() as u16)
}

/// The rectangle of `area`, as [`area_to_rect_spec`] states it.
pub fn area_to_rect(area: Area) -> (r: RectTuple)
    ensures
        r == area_to_rect_spec(area@),
{
    let (x, y) = area.upper_left();
    (x as u16, y as u16, area.width() as u16, area.height() as u16)
}

/// Whether skipping inside `root` keeps its offsets within `usize`.
pub open spec fn offsets_fit(root: AreaView) -> bool {
    root.offset.0 + root.width() <= usize::MAX && root.offset.1 + root.height() <= usize::MAX
}

/// The area of a rectangle of the screen, carved out of `root`: `root`
/// without the columns and rows before the rectangle's corner, then cut
/// to its size (empty where the rectangle lies outside `root`).
pub open spec fn rect_to_area_spec(rect: RectTuple, root: AreaView) -> AreaView {
    root.skip(sat_sub(rect.0 as nat, root.upper_left.0), sat_sub(rect.1 as nat, root.upper_left.1)).take(
        rect.2 as nat,
        rect.3 as nat,
    )
}

/// The area of `rect` inside `root`, as [`rect_to_area_spec`] states it.
pub fn rect_to_area(rect: RectTuple, root: Area) -> (r: Area)
    requires
        offsets_fit(root@),
    ensures
        r@ == rect_to_area_spec(rect, root@),
{
    let (root_x, root_y) = root.upper_left();
    let dx = (rect.0 as usize).saturating_sub(root_x);
    let dy = (rect.1 as usize).saturating_sub(root_y);
    root.skip(dx, dy).take(rect.2 as usize, rect.3 as usize)
}

/// The second segment ratatui's `Layout::horizontal` makes of `rect` with
/// the constraints `Length(first)` and `Length(second)`.
pub uninterp spec fn horizontal_second(rect: RectTuple, first: u16, second: u16) -> RectTuple;

/// The second segment ratatui's `Layout::vertical` makes of `rect` with
/// the constraints `Length(first)` and `Length(second)`.
pub uninterp spec fn vertical_second(rect: RectTuple, first: u16, second: u16) -> RectTuple;

/// Calls `Layout::horizontal([Length(first), Length(second)]).areas` on
/// `Rect::new` of `rect`. Claimed: the second segment is
/// [`horizontal_second`] of the arguments, a function of them alone.
#[verifier::external_body]
fn split_horizontal(rect: RectTuple, first: u16, second: u16) -> (r: RectTuple)
    ensures
        r == horizontal_second(rect, first, second),
{
    let area = Rect::new(rect.0, rect.1, rect.2, rect.3);
    let [_, s] = Layout::horizontal([Constraint::Length(first), Constraint::Length(second)]).areas(area);
    (s.x, s.y, s.width, s.height)
}

/// Calls `Layout::vertical([Length(first), Length(second)]).areas` on
/// `Rect::new` of `rect`. Claimed: the second segment is
/// [`vertical_second`] of the arguments, a function of them alone.
#[verifier::external_body]
fn split_vertical(rect: RectTuple, first: u16, second: u16) -> (r: RectTuple)
    ensures
        r == vertical_second(rect, first, second),
{
    let area = Rect::new(rect.0, rect.1, rect.2, rect.3);
    let [_, s] = Layout::vertical([Constraint::Length(first), Constraint::Length(second)]).areas(area);
    (s.x, s.y, s.width, s.height)
}

/// The larger of two naturals.
pub open spec fn max_nat(a: nat, b: nat) -> nat {
    if a >= b {
        a
    } else {
        b
    }
}

/// The smaller of two naturals.
pub open spec fn min2(a: nat, b: nat) -> nat {
    if a <= b {
        a
    } else {
        b
    }
}

/// The leading pad, box length pairs of a `width` by `height` box centred
/// in `a`: the pad is `max(len / 2, box / 2) - box / 2` on each axis; the
/// box keeps `width` horizontally and at most the area's height
/// vertically, both cut to the space after the pad.
pub open spec fn center_pads(a: AreaView, width: nat, height: nat) -> (nat, nat, nat, nat) {
    let pad_x = (max_nat(a.width() / 2, width / 2) - width / 2) as nat;
    let pad_y = (max_nat(a.height() / 2, height / 2) - height / 2) as nat;
    let box_w = min2(width, (a.width() - pad_x) as nat);
    let box_h = min2(min2(height, a.height()), (a.height() - pad_y) as nat);
    (pad_x, pad_y, box_w, box_h)
}

/// The centred box as the layout solver carves it: `a` itself when it is
/// empty or the box has no width or height.
pub open spec fn center_via_layout_spec(a: AreaView, width: nat, height: nat) -> AreaView {
    if a.is_empty() || width == 0 || height == 0 {
        a
    } else {
        let (pad_x, pad_y, box_w, box_h) = center_pads(a, width, height);
        let h = horizontal_second(area_to_rect_spec(a), pad_x as u16, box_w as u16);
        let v = vertical_second(h, pad_y as u16, box_h as u16);
        rect_to_area_spec(v, a)
    }
}

/// Centres a `width` by `height` box inside `area` with the pads of
/// [`center_pads`], carved through the layout solver.
pub fn center_inside_via_layout(area: Area, dims: (usize, usize)) -> (r: Area)
    requires
        offsets_fit(area@),
    ensures
        r@ == center_via_layout_spec(area@, dims.0 as nat, dims.1 as nat),
{
    let (width, height) = dims;
    if area.is_empty() || width == 0 || height == 0 {
        return area;
    }
    let area_width = area.width();
    let area_height = area.height();
    let half_x = if area_width / 2 >= width / 2 { area_width / 2 } else { width / 2 };
    let half_y = if area_height / 2 >= height / 2 { area_height / 2 } else { height / 2 };
    let pad_x = half_x - width / 2;
    let pad_y = half_y - height / 2;
    let room_x = area_width - pad_x;
    let box_width = if width <= room_x { width } else { room_x };
    let tall = if height <= area_height { height } else { area_height };
    let room_y = area_height - pad_y;
    let box_height = if tall <= room_y { tall } else { room_y };
    let h = split_horizontal(area_to_rect(area), pad_x as u16, box_width as u16);
    let v = split_vertical(h, pad_y as u16, box_height as u16);
    rect_to_area(v, area)
}

} // verus!
