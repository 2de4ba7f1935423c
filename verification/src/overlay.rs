//! Centred-overlay sizing for popups.
//!
//! Every TUI ends up with the same set of modal-overlay sizing decisions
//! (small confirms, picker / palette, text-dump panel, wide log-viewer /
//! diff). The `OverlaySize` categories and `centered_overlay` give them a
//! single size table: `centered_overlay(OverlaySize::Picker, frame)` says
//! what the overlay is, not how big it should be.

use ratatui::layout::{Constraint, Direction, Layout};
use vstd::prelude::*;

verus! {

/// A rectangle of terminal cells: top-left corner and size, the fields of
/// `ratatui`'s `Rect`.
#[derive(Debug, Clone, Copy, PartialEq, Eq, Hash, Structural)]
pub struct Rect {
    pub x: u16,
    pub y: u16,
    pub width: u16,
    pub height: u16,
}

/// Standard overlay size categories, picked by content shape rather than
/// by overlay name.
#[derive(Debug, Clone, Copy, PartialEq, Eq, Structural)]
pub enum OverlaySize {
    /// Small modal: Y/N confirm, brief menu / picker.
    Small,
    /// Picker / palette / input + list: room for a dozen rows of candidates.
    Picker,
    /// Read-only text dump (events, alarms, history, help, ...).
    Text,
    /// Wide content: log tail, diagnostics, side-by-side diffs.
    Wide,
}

/// Width and height percentages of each category.
pub open spec fn overlay_dims_spec(size: OverlaySize) -> (u16, u16) {
    match size {
        OverlaySize::Small => (50, 40),
        OverlaySize::Picker => (60, 60),
        OverlaySize::Text => (70, 70),
        OverlaySize::Wide => (85, 80),
    }
}

/// Percent dimensions per category: the size table in one place.
pub fn overlay_dims(size: OverlaySize) -> (r: (u16, u16))
    ensures
        r == overlay_dims_spec(size),
{
    match size {
        OverlaySize::Small => (50, 40),
        OverlaySize::Picker => (60, 60),
        OverlaySize::Text => (70, 70),
        OverlaySize::Wide => (85, 80),
    }
}

/// Each category is at least as big as the one before it on both axes,
/// and every percentage lies in 10..=100.
pub proof fn overlay_dims_ordered(size: OverlaySize)
    ensures
        overlay_dims_spec(OverlaySize::Small).0 <= overlay_dims_spec(OverlaySize::Picker).0,
        overlay_dims_spec(OverlaySize::Small).1 <= overlay_dims_spec(OverlaySize::Picker).1,
        overlay_dims_spec(OverlaySize::Picker).0 <= overlay_dims_spec(OverlaySize::Text).0,
        overlay_dims_spec(OverlaySize::Picker).1 <= overlay_dims_spec(OverlaySize::Text).1,
        overlay_dims_spec(OverlaySize::Text).0 <= overlay_dims_spec(OverlaySize::Wide).0,
        overlay_dims_spec(OverlaySize::Text).1 <= overlay_dims_spec(OverlaySize::Wide).1,
        10 <= overlay_dims_spec(size).0 <= 100,
        10 <= overlay_dims_spec(size).1 <= 100,
{
}

/// The segments that `ratatui`'s layout solver cuts `area` into, along
/// the vertical axis or the horizontal one, for three percentage
/// constraints `a`, `b` and `c`.
pub uninterp spec fn percent_segments(vertical: bool, a: u16, b: u16, c: u16, area: Rect) -> Seq<
    Rect,
>;

/// Splits `area` with `ratatui`'s `Layout::split`, along the vertical axis
/// (rows) or the horizontal one (columns), into three segments sized by
/// the percentage constraints `a`, `b` and `c`.
///
/// The contract names the segments (the solver's answer is not restated)
/// and states what `Layout::split` shows plainly: one segment per
/// constraint, each segment spans the whole of `area` across the axis that
/// is split, and lies within `area` along it (the solver's required
/// constraints keep every boundary between the area's two edges). The
/// percentages are held to a total of at most 100, where the solver's
/// optimum is unique.
#[verifier::external_body]
fn split_percentages(vertical: bool, a: u16, b: u16, c: u16, area: Rect) -> (r: Vec<Rect>)
    requires
        a + b + c <= 100,
    ensures
        r@ == percent_segments(vertical, a, b, c, area),
        r@.len() == 3,
        forall|i: int|
            0 <= i < 3 ==> (if vertical {
                &&& r@[i].x == area.x && r@[i].width == area.width
                &&& area.y <= r@[i].y && r@[i].y + r@[i].height <= area.y + area.height
            } else {
                &&& r@[i].y == area.y && r@[i].height == area.height
                &&& area.x <= r@[i].x && r@[i].x + r@[i].width <= area.x + area.width
            }),
{
    let direction = if vertical { Direction::Vertical } else { Direction::Horizontal };
    let outer = ratatui::layout::Rect { x: area.x, y: area.y, width: area.width, height: area.height };
    let parts = [Constraint::Percentage(a), Constraint::Percentage(b), Constraint::Percentage(c)];
    let segments = Layout::default().direction(direction).constraints(parts).split(outer);
    segments.iter().map(|q| Rect { x: q.x, y: q.y, width: q.width, height: q.height }).collect()
}

/// The middle row band of `r` for a `percent_y` tall centre.
pub open spec fn middle_band(percent_y: u16, r: Rect) -> Rect {
    let edge = ((100 - percent_y) / 2) as u16;
    percent_segments(true, edge, percent_y, edge, r)[1]
}

/// The centre of `r`: the middle column of its middle row band.
pub open spec fn centered_rect_spec(percent_x: u16, percent_y: u16, r: Rect) -> Rect {
    let edge = ((100 - percent_x) / 2) as u16;
    percent_segments(false, edge, percent_x, edge, middle_band(percent_y, r))[1]
}

/// The centre of `r`, for every `r` whatever its size, is the middle
/// column of the middle row band: `r` is always split into rows first
/// (edges `(100 - percent_y) / 2`), then that band into columns.
pub proof fn centered_rect_is_two_splits(percent_x: u16, percent_y: u16, r: Rect)
    requires
        percent_x <= 100,
        percent_y <= 100,
    ensures
        ({
            let ey = ((100 - percent_y) / 2) as u16;
            let ex = ((100 - percent_x) / 2) as u16;
            let band = percent_segments(true, ey, percent_y, ey, r)[1];
            &&& middle_band(percent_y, r) == band
            &&& centered_rect_spec(percent_x, percent_y, r) == percent_segments(
                false,
                ex,
                percent_x,
                ex,
                band,
            )[1]
        }),
{
}

/// Centre a `percent_x × percent_y` rect inside `r`: split `r` into three
/// row bands (the outer two share what the centre leaves), then split the
/// middle band into three columns the same way, and take the middle one.
pub fn centered_rect(percent_x: u16, percent_y: u16, r: Rect) -> (c: Rect)
    requires
        percent_x <= 100,
        percent_y <= 100,
    ensures
        c == centered_rect_spec(percent_x, percent_y, r),
        c == percent_segments(
            false,
            ((100 - percent_x) / 2) as u16,
            percent_x,
            ((100 - percent_x) / 2) as u16,
            percent_segments(true, ((100 - percent_y) / 2) as u16, percent_y, ((100 - percent_y) / 2) as u16, r)[1],
        )[1],
        c.y == percent_segments(true, ((100 - percent_y) / 2) as u16, percent_y, ((100 - percent_y) / 2) as u16, r)[1].y,
        c.height == percent_segments(true, ((100 - percent_y) / 2) as u16, percent_y, ((100 - percent_y) / 2) as u16, r)[1].height,
        c.y == middle_band(percent_y, r).y,
        c.height == middle_band(percent_y, r).height,
        middle_band(percent_y, r).x == r.x,
        middle_band(percent_y, r).width == r.width,
        r.x <= c.x && c.x + c.width <= r.x + r.width,
        r.y <= c.y && c.y + c.height <= r.y + r.height,
{
    let edge_y = (100 - percent_y) / 2;
    let v = split_percentages(true, edge_y, percent_y, edge_y, r);
    let edge_x = (100 - percent_x) / 2;
    let h = split_percentages(false, edge_x, percent_x, edge_x, v[1]);
    h[1]
}

/// The centred rect for an overlay category: its size comes from
/// [`overlay_dims`].
pub fn centered_overlay(size: OverlaySize, area: Rect) -> (c: Rect)
    ensures
        c == centered_rect_spec(overlay_dims_spec(size).0, overlay_dims_spec(size).1, area),
        ({
            let (w, h) = overlay_dims_spec(size);
            let ex = ((100 - w) / 2) as u16;
            let ey = ((100 - h) / 2) as u16;
            c == percent_segments(false, ex, w, ex, percent_segments(true, ey, h, ey, area)[1])[1]
        }),
        area.x <= c.x && c.x + c.width <= area.x + area.width,
        area.y <= c.y && c.y + c.height <= area.y + area.height,
{
    let (w, h) = overlay_dims(size);
    centered_rect(w, h, area)
}

} // verus!
