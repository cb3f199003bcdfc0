//! Cell rectangles of the terminal screen, computed by ratatui's layout code.

use vstd::prelude::*;
use ratatui::layout::{Constraint, Direction, Layout, Margin, Rect};
use ratatui::widgets::{Block, Borders};

verus! {

/// A rectangle of terminal cells.
#[derive(Clone, Copy, Debug, PartialEq, Eq, Structural)]
pub struct ScreenRect {
    pub x: u16,
    pub y: u16,
    pub width: u16,
    pub height: u16,
}

/// `a + b`, held at `u16::MAX`.
pub open spec fn saturating_add(a: int, b: int) -> int {
    if a + b > u16::MAX { u16::MAX as int } else { a + b }
}

/// `a - b`, held at 0.
pub open spec fn saturating_sub(a: int, b: int) -> int {
    if a < b { 0 } else { a - b }
}

/// The smaller of `a` and `b`.
pub open spec fn min_int(a: int, b: int) -> int {
    if a <= b { a } else { b }
}

/// `area` shrunk by `horizontal` cells on the left and right and `vertical` cells on the top
/// and bottom; the empty rectangle at the origin when the margins do not fit.
pub open spec fn margin_inner(area: ScreenRect, horizontal: u16, vertical: u16) -> ScreenRect {
    let doubled_horizontal = min_int(2 * horizontal, u16::MAX as int);
    let doubled_vertical = min_int(2 * vertical, u16::MAX as int);
    if area.width < doubled_horizontal || area.height < doubled_vertical {
        ScreenRect { x: 0, y: 0, width: 0, height: 0 }
    } else {
        ScreenRect {
            x: saturating_add(area.x as int, horizontal as int) as u16,
            y: saturating_add(area.y as int, vertical as int) as u16,
            width: (area.width - doubled_horizontal) as u16,
            height: (area.height - doubled_vertical) as u16,
        }
    }
}

/// The cells inside a border drawn on all four sides of `area`.
pub open spec fn bordered_inner(area: ScreenRect) -> ScreenRect {
    let x = min_int(
        saturating_add(area.x as int, 1),
        saturating_add(area.x as int, area.width as int),
    );
    let y = min_int(
        saturating_add(area.y as int, 1),
        saturating_add(area.y as int, area.height as int),
    );
    ScreenRect {
        x: x as u16,
        y: y as u16,
        width: saturating_sub(saturating_sub(area.width as int, 1), 1) as u16,
        height: saturating_sub(saturating_sub(area.height as int, 1), 1) as u16,
    }
}

/// Whether cell `(x, y)` lies in `r` (whose right and bottom edges are held at `u16::MAX`, as
/// ratatui holds them).
pub open spec fn in_rect(r: ScreenRect, x: int, y: int) -> bool {
    &&& r.x <= x < saturating_add(r.x as int, r.width as int)
    &&& r.y <= y < saturating_add(r.y as int, r.height as int)
}

/// A row of `area`: it spans the whole width of `area` and lies between its top and bottom
/// edges.
pub open spec fn is_row_of(row: ScreenRect, area: ScreenRect) -> bool {
    &&& row.x == area.x
    &&& row.width == area.width
    &&& area.y <= row.y
    &&& row.y + row.height <= saturating_add(area.y as int, area.height as int)
}

/// The sum of the first `k` lengths.
pub open spec fn length_total(lengths: Seq<u16>, k: int) -> int
    decreases k,
{
    if k <= 0 {
        0
    } else {
        length_total(lengths, k - 1) + lengths[k - 1]
    }
}

/// Whether the lengths add up to exactly the height of `area`, and `area` ends before
/// `u16::MAX`, so that the rows fill `area` with no room to spare.
pub open spec fn lengths_fill(area: ScreenRect, lengths: Seq<u16>) -> bool {
    &&& length_total(lengths, lengths.len() as int) == area.height
    &&& area.y + area.height <= u16::MAX
}

/// `area` cut top to bottom into rows of the given heights, one under the other.
pub open spec fn stacked_rows(area: ScreenRect, lengths: Seq<u16>) -> Seq<ScreenRect> {
    Seq::new(
        lengths.len(),
        |k: int|
            ScreenRect {
                x: area.x,
                y: (area.y + length_total(lengths, k)) as u16,
                width: area.width,
                height: lengths[k],
            },
    )
}

/// Calls `ratatui::layout::Rect::inner`. Its source shrinks the rectangle by the margin on
/// each side with saturating arithmetic and gives the empty rectangle at the origin when
/// twice a margin exceeds the width or height; that is what the contract states.
#[verifier::external_body]
pub(crate) fn rect_inner(area: ScreenRect, horizontal: u16, vertical: u16) -> (inner: ScreenRect)
    ensures
        inner == margin_inner(area, horizontal, vertical),
{
    let rect = Rect { x: area.x, y: area.y, width: area.width, height: area.height };
    let inner = rect.inner(Margin::new(horizontal, vertical));
    ScreenRect { x: inner.x, y: inner.y, width: inner.width, height: inner.height }
}

/// Calls `ratatui::widgets::Block::inner` on a block with borders on all sides, no title and
/// no padding. Its source moves the left and top edges in by one cell (never past the right or
/// bottom edge) and takes one cell off the width and height for each border, saturating at
/// zero; that is what the contract states.
#[verifier::external_body]
pub(crate) fn block_inner(area: ScreenRect) -> (inner: ScreenRect)
    ensures
        inner == bordered_inner(area),
{
    let rect = Rect { x: area.x, y: area.y, width: area.width, height: area.height };
    let inner = Block::new().borders(Borders::ALL).inner(rect);
    ScreenRect { x: inner.x, y: inner.y, width: inner.width, height: inner.height }
}

/// Calls `ratatui::layout::Layout::split` on a vertical layout of `Constraint::Length` rows.
/// As the source shows, it gives one row per constraint, and each row is a row of `area`:
/// `changes_to_rects` gives every vertical segment the area's `x` and `width`, and its top and
/// bottom come from solver variables that required constraints hold between the area's top
/// and bottom; with only `Length` constraints those required constraints can always be met,
/// so the split does not panic. When the lengths fill the area exactly, meeting every
/// `Length` constraint is the one optimum, and the rows are stacked one under the other.
/// Otherwise the solver's choice among equally good rows depends on the order of its hash
/// maps, which are seeded at random, and is left unsaid.
#[verifier::external_body]
pub(crate) fn vertical_split(area: ScreenRect, lengths: &Vec<u16>) -> (rows: Vec<ScreenRect>)
    ensures
        rows@.len() == lengths@.len(),
        lengths_fill(area, lengths@) ==> rows@ == stacked_rows(area, lengths@),
        forall|k: int| 0 <= k < rows@.len() ==> is_row_of(#[trigger] rows@[k], area),
{
    let rect = Rect { x: area.x, y: area.y, width: area.width, height: area.height };
    let layout = Layout::default().direction(Direction::Vertical).constraints(
        lengths.iter().map(|length| Constraint::Length(*length)),
    );
    let parts = layout.split(rect);
    parts.iter().map(|r| ScreenRect { x: r.x, y: r.y, width: r.width, height: r.height }).collect()
}

} // verus!
