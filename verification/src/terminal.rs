//! The software-rendered terminal screen: drawing a card with ratatui, and putting the rendered
//! pixmap on the model's texture atlas.

use vstd::prelude::*;
use bevy::asset::RenderAssetUsages;
use bevy::image::{CompressedImageFormats, Image, ImageSampler, ImageType};
use ratatui::Frame;
use ratatui::layout::{Alignment, Rect};
use ratatui::style::{Color, Style};
use ratatui::widgets::{Block, Borders, Paragraph, Wrap};
use crate::layout::{
    ScreenRect, bordered_inner, in_rect, is_row_of, lengths_fill, margin_inner, saturating_add,
    stacked_rows,
};
use crate::pixels::{
    SCREEN_ATLAS_HEIGHT, SCREEN_ATLAS_WIDTH, SCREEN_ATLAS_X, SCREEN_ATLAS_Y, screen_on_atlas,
    screen_to_atlas_pixels, target_fits,
};
use crate::progress::SceneMode;
use crate::screen::{
    ScreenCard, ScreenPlan, ShutdownStage, TerminalDemoApp, TextPanel, Rgb, border_color, card_of,
    horizontal_margin_of, is_screen_plan, lemma_intermission_repeats, lemma_live_soon_repeats,
    panel_views, panels_stacked, plan_terminal_screen, planned_panels, rgb, row_heights,
};

verus! {

/// `ratatui::Frame`, the frame a card is drawn on, as an opaque type.
#[verifier::external_type_specification]
#[verifier::external_body]
pub struct ExFrame<'a>(Frame<'a>);

/// The symbol of each cell of the buffer a frame draws into, by column and row; its domain is
/// the cells of the buffer.
pub uninterp spec fn frame_symbols(frame: Frame) -> Map<(u16, u16), Seq<char>>;

/// The area of a frame: the terminal's viewport it was made for.
pub uninterp spec fn frame_viewport(frame: Frame) -> ScreenRect;

/// Whether every cell of `area` is a cell of the buffer whose symbols are `symbols`.
pub open spec fn area_in_buffer(area: ScreenRect, symbols: Map<(u16, u16), Seq<char>>) -> bool {
    forall|x: u16, y: u16| in_rect(area, x as int, y as int) ==> symbols.dom().contains((x, y))
}

/// Whether `area` ends before `u16::MAX` along both axes, so that its right and bottom edges
/// are not held there.
pub open spec fn unclipped(area: ScreenRect) -> bool {
    area.x + area.width <= u16::MAX && area.y + area.height <= u16::MAX
}

/// The symbol of a plain border drawn on all sides of `area` at cell `(x, y)`: corners at the
/// four corners, vertical lines on the left and right columns, horizontal lines on the top and
/// bottom rows, and none inside.
pub open spec fn border_symbol(area: ScreenRect, x: int, y: int) -> Option<Seq<char>> {
    let left = area.x as int;
    let top = area.y as int;
    let right = saturating_add(area.x as int, area.width as int) - 1;
    let bottom = saturating_add(area.y as int, area.height as int) - 1;
    if x == right && y == bottom {
        Some(seq!['\u{2518}'])
    } else if x == right && y == top {
        Some(seq!['\u{2510}'])
    } else if x == left && y == bottom {
        Some(seq!['\u{2514}'])
    } else if x == left && y == top {
        Some(seq!['\u{250C}'])
    } else if x == left || x == right {
        Some(seq!['\u{2502}'])
    } else if y == top || y == bottom {
        Some(seq!['\u{2500}'])
    } else {
        None
    }
}

/// Calls `ratatui::Frame::area`: the frame's viewport.
#[verifier::external_body]
fn frame_area(frame: &Frame) -> (area: ScreenRect)
    ensures
        area == frame_viewport(*frame),
{
    let area = frame.area();
    ScreenRect { x: area.x, y: area.y, width: area.width, height: area.height }
}

/// A colour a cell is painted with.
#[derive(Clone, Copy, Debug, PartialEq, Eq, Structural)]
pub enum Paint {
    /// The terminal's black.
    Black,
    /// A true colour.
    Rgb(Rgb),
}

/// How the lines of a paragraph sit in its area.
#[derive(Clone, Copy, Debug, PartialEq, Eq, Structural)]
pub enum TextAlign {
    Left,
    Center,
    Right,
}

/// The foreground and background colour of each cell of the buffer a frame draws into, by
/// column and row: `Some` of a `Paint` for black and for true colours, `None` for any other
/// colour; its domain is the cells of the buffer.
pub uninterp spec fn frame_colors(frame: Frame) -> Map<(u16, u16), (Option<Paint>, Option<Paint>)>;

/// The symbols that a word-wrapping ratatui `Paragraph` of `text`, with the given alignment
/// and trimming, writes when rendered on `area` inside the buffer: the cells its wrapped
/// lines cover, each with its grapheme.
pub uninterp spec fn paragraph_symbols(
    area: ScreenRect,
    text: Seq<char>,
    alignment: TextAlign,
    trim: bool,
) -> Map<(u16, u16), Seq<char>>;

/// Whether the cells of the frame outside `area` keep their symbols and colours, and the
/// frame keeps its viewport and cells.
pub open spec fn untouched_outside(area: ScreenRect, before: Frame, after: Frame) -> bool {
    &&& frame_viewport(after) == frame_viewport(before)
    &&& frame_symbols(after).dom() == frame_symbols(before).dom()
    &&& frame_colors(after).dom() == frame_colors(before).dom()
    &&& forall|x: u16, y: u16|
        #![trigger frame_symbols(after)[(x, y)]]
        frame_symbols(before).dom().contains((x, y)) && !in_rect(area, x as int, y as int)
            ==> frame_symbols(after)[(x, y)] == frame_symbols(before)[(x, y)]
    &&& forall|x: u16, y: u16|
        #![trigger frame_colors(after)[(x, y)]]
        frame_colors(before).dom().contains((x, y)) && !in_rect(area, x as int, y as int)
            ==> frame_colors(after)[(x, y)] == frame_colors(before)[(x, y)]
}

/// Calls `ratatui::Frame::render_widget` with a `Block` on `area` whose style has the
/// background `background`, bordered on all sides when `bordered` with a border style of
/// foreground `border_foreground` on `background`. The source (`Block::render`) clips `area`
/// to the buffer, sets the block's style on every cell there, and, when bordered, sets the
/// border style on the edge cells and writes the plain border set with the replacing merge
/// strategy of `Block::new`, sides first and corners last; setting a style changes no
/// symbol, and only the colours the style holds. That is what the contract states.
#[verifier::external_body]
fn render_block(
    frame: &mut Frame,
    area: ScreenRect,
    bordered: bool,
    background: Paint,
    border_foreground: Paint,
)
    ensures
        untouched_outside(area, *old(frame), *final(frame)),
        forall|x: u16, y: u16|
            #![trigger frame_colors(*final(frame))[(x, y)]]
            frame_colors(*old(frame)).dom().contains((x, y)) && in_rect(area, x as int, y as int)
                ==> frame_colors(*final(frame))[(x, y)].1 == Some(background) && (frame_colors(
                *final(frame),
            )[(x, y)].0 == frame_colors(*old(frame))[(x, y)].0 || bordered && frame_colors(
                *final(frame),
            )[(x, y)].0 == Some(border_foreground)),
        !bordered ==> frame_symbols(*final(frame)) == frame_symbols(*old(frame)),
        bordered && border_fits(area, frame_symbols(*old(frame))) ==> forall|x: u16, y: u16|
            #![trigger frame_symbols(*final(frame))[(x, y)]]
            in_rect(area, x as int, y as int) ==> frame_symbols(*final(frame))[(x, y)] == match border_symbol(
                area,
                x as int,
                y as int,
            ) {
                Some(symbol) => symbol,
                None => frame_symbols(*old(frame))[(x, y)],
            },
        bordered && border_fits(area, frame_symbols(*old(frame))) ==> forall|x: u16, y: u16|
            #![trigger frame_colors(*final(frame))[(x, y)]]
            frame_colors(*old(frame)).dom().contains((x, y)) && in_rect(area, x as int, y as int)
                ==> frame_colors(*final(frame))[(x, y)].0 == if border_symbol(
                area,
                x as int,
                y as int,
            ) is Some {
                Some(border_foreground)
            } else {
                frame_colors(*old(frame))[(x, y)].0
            },
{
    let rect = Rect { x: area.x, y: area.y, width: area.width, height: area.height };
    let bg = match background { Paint::Black => Color::Black, Paint::Rgb(c) => Color::Rgb(c.r, c.g, c.b) };
    let fg = match border_foreground { Paint::Black => Color::Black, Paint::Rgb(c) => Color::Rgb(c.r, c.g, c.b) };
    let borders = if bordered { Borders::ALL } else { Borders::NONE };
    let style = Style::default().bg(bg);
    frame.render_widget(Block::new().borders(borders).style(style).border_style(style.fg(fg)), rect);
}

/// Calls `ratatui::Frame::render_widget` with a word-wrapping `Paragraph` of `text` on
/// `area`, with the given alignment and trimming and a style of `foreground` on `background`.
/// The source (`Paragraph::render`) clips `area` to the buffer, sets the paragraph's style on
/// every cell there, and writes the graphemes of its wrapped lines inside it, each with the
/// plain style of unstyled text, which changes no colour. That is what the contract states,
/// with the symbols written named by `paragraph_symbols`; where `area` reaches past the
/// buffer or is held at `u16::MAX`, which symbols are written inside it is left unsaid.
#[verifier::external_body]
fn render_paragraph(
    frame: &mut Frame,
    area: ScreenRect,
    text: &str,
    alignment: TextAlign,
    trim: bool,
    foreground: Paint,
    background: Paint,
)
    ensures
        untouched_outside(area, *old(frame), *final(frame)),
        forall|x: u16, y: u16|
            #![trigger frame_colors(*final(frame))[(x, y)]]
            frame_colors(*old(frame)).dom().contains((x, y)) && in_rect(area, x as int, y as int)
                ==> frame_colors(*final(frame))[(x, y)] == (Some(foreground), Some(background)),
        unclipped(area) && area_in_buffer(area, frame_symbols(*old(frame))) ==> forall|
            x: u16,
            y: u16,
        |
            #![trigger frame_symbols(*final(frame))[(x, y)]]
            in_rect(area, x as int, y as int) ==> frame_symbols(*final(frame))[(x, y)] == if paragraph_symbols(
                area,
                text@,
                alignment,
                trim,
            ).dom().contains((x, y)) {
                paragraph_symbols(area, text@, alignment, trim)[(x, y)]
            } else {
                frame_symbols(*old(frame))[(x, y)]
            },
{
    let rect = Rect { x: area.x, y: area.y, width: area.width, height: area.height };
    let fg = match foreground { Paint::Black => Color::Black, Paint::Rgb(c) => Color::Rgb(c.r, c.g, c.b) };
    let bg = match background { Paint::Black => Color::Black, Paint::Rgb(c) => Color::Rgb(c.r, c.g, c.b) };
    let alignment = match alignment {
        TextAlign::Left => Alignment::Left,
        TextAlign::Center => Alignment::Center,
        TextAlign::Right => Alignment::Right,
    };
    let paragraph = Paragraph::new(text).alignment(alignment).wrap(Wrap { trim });
    frame.render_widget(paragraph.style(Style::default().fg(fg).bg(bg)), rect);
}

/// Every cell of the margin-inset area lies in the area.
proof fn lemma_margin_inner_cells(area: ScreenRect, horizontal: u16, x: int, y: int)
    requires
        in_rect(margin_inner(area, horizontal, 0), x, y),
    ensures
        in_rect(area, x, y),
{
}

/// Every cell inside a border lies in the bordered area; when the area is at least two cells
/// wide and tall and unclipped, no cell inside the border is on it.
proof fn lemma_bordered_inner_cells(area: ScreenRect, x: int, y: int)
    requires
        in_rect(bordered_inner(area), x, y),
    ensures
        in_rect(area, x, y),
        area.width >= 2 && area.height >= 2 && unclipped(area) ==> border_symbol(area, x, y) is None,
{
}

/// A row of an area holds only cells of the area.
proof fn lemma_row_cells(row: ScreenRect, area: ScreenRect, x: int, y: int)
    requires
        is_row_of(row, area),
        in_rect(row, x, y),
    ensures
        in_rect(area, x, y),
{
}

/// Whether the frame's cells keep their symbols outside `area`.
pub open spec fn same_outside(
    area: ScreenRect,
    before: Map<(u16, u16), Seq<char>>,
    after: Map<(u16, u16), Seq<char>>,
) -> bool {
    &&& after.dom() == before.dom()
    &&& forall|x: u16, y: u16|
        #![trigger after[(x, y)]]
        before.dom().contains((x, y)) && !in_rect(area, x as int, y as int) ==> after[(x, y)]
            == before[(x, y)]
}

/// Whether the cells on the edges of `area` hold the symbols of a plain border.
pub open spec fn bordered(area: ScreenRect, symbols: Map<(u16, u16), Seq<char>>) -> bool {
    forall|x: u16, y: u16|
        #![trigger symbols[(x, y)]]
        in_rect(area, x as int, y as int) && border_symbol(area, x as int, y as int) is Some
            ==> symbols[(x, y)] == border_symbol(area, x as int, y as int)->0
}

/// Whether a border can be drawn whole on `area` in a buffer whose symbols are `symbols`.
pub open spec fn border_fits(area: ScreenRect, symbols: Map<(u16, u16), Seq<char>>) -> bool {
    area.width >= 2 && area.height >= 2 && unclipped(area) && area_in_buffer(area, symbols)
}

/// Whether the cells of `panel`'s area show its text, written as a centred, word-wrapping
/// paragraph over the symbols `before`.
pub open spec fn shows_text(
    panel: TextPanel,
    before: Map<(u16, u16), Seq<char>>,
    after: Map<(u16, u16), Seq<char>>,
) -> bool {
    let written = paragraph_symbols(panel.area, panel.text@, TextAlign::Center, false);
    forall|x: u16, y: u16|
        #![trigger after[(x, y)]]
        in_rect(panel.area, x as int, y as int) ==> after[(x, y)] == if written.dom().contains(
            (x, y),
        ) {
            written[(x, y)]
        } else {
            before[(x, y)]
        }
}

/// Whether the cells of `panel`'s area are painted in its colour on black.
pub open spec fn painted_in(
    panel: TextPanel,
    colors: Map<(u16, u16), (Option<Paint>, Option<Paint>)>,
) -> bool {
    forall|x: u16, y: u16|
        #![trigger colors[(x, y)]]
        colors.dom().contains((x, y)) && in_rect(panel.area, x as int, y as int) ==> colors[(x, y)]
            == (Some(Paint::Rgb(panel.color)), Some(Paint::Black))
}

/// Whether cell `(x, y)` lies in none of the panels' areas.
pub open spec fn in_no_panel(panels: Seq<TextPanel>, x: int, y: int) -> bool {
    forall|k: int| 0 <= k < panels.len() ==> !in_rect(#[trigger] panels[k].area, x, y)
}

/// Stacked panels share no cell.
proof fn lemma_stacked_apart(panels: Seq<TextPanel>, j: int, k: int, x: int, y: int)
    requires
        panels_stacked(panels),
        0 <= j < k < panels.len(),
        in_rect(panels[k].area, x, y),
    ensures
        !in_rect(panels[j].area, x, y),
{
    assert(panels[j].area.y + panels[j].area.height <= panels[k].area.y);
}

/// Whether `after` is the frame `before` with the card of `mode` drawn on it from `plan`:
/// `plan` is `plan_terminal_screen` for the frame's area, every cell of the frame's area gets
/// a black background, symbols change only inside the border's area and foreground colours
/// only inside it too; when the border fits in the buffer its edges hold a plain border in the
/// border colour, and when the panels are also stacked each panel's row shows its text as a
/// centred, word-wrapping paragraph in the panel's colour on black, while the other cells
/// inside the border keep their symbols and foreground colours.
pub open spec fn draws_card(
    before: Frame,
    after: Frame,
    plan: ScreenPlan,
    mode: SceneMode,
    frame_index: u64,
    stage: ShutdownStage,
    flash_on: bool,
) -> bool {
    &&& frame_viewport(after) == frame_viewport(before)
    &&& is_screen_plan(plan, mode, frame_viewport(before), frame_index, stage, flash_on)
    &&& same_outside(plan.frame_area, frame_symbols(before), frame_symbols(after))
    &&& frame_colors(after).dom() == frame_colors(before).dom()
    &&& forall|x: u16, y: u16|
        #![trigger frame_colors(after)[(x, y)]]
        frame_colors(before).dom().contains((x, y)) ==> {
            let was = frame_colors(before)[(x, y)];
            let now = frame_colors(after)[(x, y)];
            &&& in_rect(frame_viewport(before), x as int, y as int) ==> now.1 == Some(Paint::Black)
            &&& !in_rect(frame_viewport(before), x as int, y as int) ==> now == was
            &&& !in_rect(plan.frame_area, x as int, y as int) ==> now.0 == was.0
        }
    &&& border_fits(plan.frame_area, frame_symbols(before)) ==> bordered(
        plan.frame_area,
        frame_symbols(after),
    )
    &&& border_fits(plan.frame_area, frame_symbols(before)) ==> forall|x: u16, y: u16|
        #![trigger frame_colors(after)[(x, y)]]
        frame_colors(before).dom().contains((x, y)) && in_rect(
            plan.frame_area,
            x as int,
            y as int,
        ) && border_symbol(plan.frame_area, x as int, y as int) is Some
            ==> frame_colors(after)[(x, y)].0 == Some(Paint::Rgb(rgb(70, 120, 70)))
    &&& border_fits(plan.frame_area, frame_symbols(before)) && panels_stacked(plan.panels@)
        ==> forall|k: int|
        0 <= k < plan.panels@.len() ==> shows_text(
            #[trigger] plan.panels@[k],
            frame_symbols(before),
            frame_symbols(after),
        ) && painted_in(plan.panels@[k], frame_colors(after))
    &&& border_fits(plan.frame_area, frame_symbols(before)) && panels_stacked(plan.panels@)
        ==> forall|x: u16, y: u16|
        #![trigger frame_symbols(after)[(x, y)]]
        in_rect(plan.inner, x as int, y as int) && in_no_panel(plan.panels@, x as int, y as int)
            ==> frame_symbols(after)[(x, y)] == frame_symbols(before)[(x, y)]
    &&& border_fits(plan.frame_area, frame_symbols(before)) && panels_stacked(plan.panels@)
        ==> forall|x: u16, y: u16|
        #![trigger frame_colors(after)[(x, y)]]
        frame_colors(before).dom().contains((x, y)) && in_rect(plan.inner, x as int, y as int)
            && in_no_panel(plan.panels@, x as int, y as int) ==> frame_colors(
            after,
        )[(x, y)].0 == frame_colors(before)[(x, y)].0
}

/// Draws the card of `mode` on a frame and gives the plan it was drawn from (see
/// `draws_card`). The panels are stacked whenever the row heights fill the inside of the
/// border, as they do on the screen of the scene.
pub fn draw_terminal_screen(
    frame: &mut Frame,
    mode: SceneMode,
    frame_index: u64,
    stage: ShutdownStage,
    flash_on: bool,
) -> (plan: ScreenPlan)
    ensures
        draws_card(*old(frame), *final(frame), plan, mode, frame_index, stage, flash_on),
{
    let ghost syms0 = frame_symbols(*frame);
    let ghost cols0 = frame_colors(*frame);
    let area = frame_area(frame);
    let plan = plan_terminal_screen(mode, area, frame_index, stage, flash_on);
    let ghost fa = plan.frame_area;
    let ghost inner = plan.inner;
    let ghost fits = border_fits(fa, syms0);
    let ghost stacked = panels_stacked(plan.panels@);
    render_block(frame, area, false, Paint::Black, Paint::Black);
    let ghost cols1 = frame_colors(*frame);
    render_block(frame, plan.frame_area, true, Paint::Black, Paint::Rgb(border_color()));
    proof {
        assert forall|x: u16, y: u16| in_rect(fa, x as int, y as int) implies in_rect(
            area,
            x as int,
            y as int,
        ) by {
            lemma_margin_inner_cells(area, horizontal_margin_of(mode), x as int, y as int);
        }
        assert forall|x: u16, y: u16| in_rect(inner, x as int, y as int) implies in_rect(
            fa,
            x as int,
            y as int,
        ) && (fits ==> border_symbol(fa, x as int, y as int) is None) by {
            lemma_bordered_inner_cells(fa, x as int, y as int);
        }
    }
    let mut k: usize = 0;
    while k < plan.panels.len()
        invariant
            0 <= k <= plan.panels@.len(),
            is_screen_plan(plan, mode, area, frame_index, stage, flash_on),
            fa == plan.frame_area,
            inner == plan.inner,
            fits == border_fits(fa, syms0),
            stacked == panels_stacked(plan.panels@),
            forall|x: u16, y: u16| in_rect(fa, x as int, y as int) ==> #[trigger] in_rect(
                area,
                x as int,
                y as int,
            ),
            forall|x: u16, y: u16| #[trigger]
                in_rect(inner, x as int, y as int) ==> in_rect(fa, x as int, y as int) && (fits
                    ==> border_symbol(fa, x as int, y as int) is None),
            frame_viewport(*frame) == area,
            same_outside(fa, syms0, frame_symbols(*frame)),
            frame_colors(*frame).dom() == cols0.dom(),
            forall|x: u16, y: u16|
                #![trigger frame_colors(*frame)[(x, y)]]
                cols0.dom().contains((x, y)) ==> {
                    let after = frame_colors(*frame)[(x, y)];
                    &&& in_rect(area, x as int, y as int) ==> after.1 == Some(Paint::Black)
                    &&& !in_rect(area, x as int, y as int) ==> after == cols0[(x, y)]
                    &&& !in_rect(fa, x as int, y as int) ==> after.0 == cols0[(x, y)].0
                },
            fits ==> bordered(fa, frame_symbols(*frame)),
            fits ==> forall|x: u16, y: u16|
                #![trigger frame_colors(*frame)[(x, y)]]
                cols0.dom().contains((x, y)) && in_rect(fa, x as int, y as int) && border_symbol(
                    fa,
                    x as int,
                    y as int,
                ) is Some ==> frame_colors(*frame)[(x, y)].0 == Some(Paint::Rgb(rgb(70, 120, 70))),
            fits && stacked ==> forall|j: int|
                0 <= j < k ==> shows_text(
                    #[trigger] plan.panels@[j],
                    syms0,
                    frame_symbols(*frame),
                ) && painted_in(plan.panels@[j], frame_colors(*frame)),
            fits && stacked ==> forall|x: u16, y: u16|
                #![trigger frame_symbols(*frame)[(x, y)]]
                in_rect(inner, x as int, y as int) && in_no_panel(
                    plan.panels@.take(k as int),
                    x as int,
                    y as int,
                ) ==> frame_symbols(*frame)[(x, y)] == syms0[(x, y)],
            fits && stacked ==> forall|x: u16, y: u16|
                #![trigger frame_colors(*frame)[(x, y)]]
                cols0.dom().contains((x, y)) && in_rect(inner, x as int, y as int) && in_no_panel(
                    plan.panels@.take(k as int),
                    x as int,
                    y as int,
                ) ==> frame_colors(*frame)[(x, y)].0 == cols0[(x, y)].0,
        decreases plan.panels.len() - k,
    {
        let panel = &plan.panels[k];
        let ghost syms = frame_symbols(*frame);
        let ghost cols = frame_colors(*frame);
        let ghost row = plan.panels@[k as int].area;
        proof {
            assert forall|x: u16, y: u16| in_rect(row, x as int, y as int) implies in_rect(
                inner,
                x as int,
                y as int,
            ) by {
                lemma_row_cells(row, inner, x as int, y as int);
            }
        }
        render_paragraph(
            frame,
            panel.area,
            panel.text.as_str(),
            TextAlign::Center,
            false,
            Paint::Rgb(panel.color),
            Paint::Black,
        );
        proof {
            let panels = plan.panels@;
            if fits {
                assert(unclipped(row));
                assert(area_in_buffer(row, syms));
            }
            if fits && stacked {
                assert forall|j: int| 0 <= j < k + 1 implies shows_text(
                    #[trigger] panels[j],
                    syms0,
                    frame_symbols(*frame),
                ) && painted_in(panels[j], frame_colors(*frame)) by {
                    let after = frame_symbols(*frame);
                    let colors = frame_colors(*frame);
                    let written = paragraph_symbols(
                        panels[j].area,
                        panels[j].text@,
                        TextAlign::Center,
                        false,
                    );
                    if j < k {
                        assert(shows_text(panels[j], syms0, syms));
                        assert(painted_in(panels[j], cols));
                        assert forall|x: u16, y: u16| in_rect(panels[j].area, x as int, y as int)
                            implies after[(x, y)] == if written.dom().contains((x, y)) {
                            written[(x, y)]
                        } else {
                            syms0[(x, y)]
                        } by {
                            if in_rect(row, x as int, y as int) {
                                lemma_stacked_apart(panels, j, k as int, x as int, y as int);
                            }
                            assert(syms[(x, y)] == if written.dom().contains((x, y)) {
                                written[(x, y)]
                            } else {
                                syms0[(x, y)]
                            });
                        }
                        assert forall|x: u16, y: u16|
                            colors.dom().contains((x, y)) && in_rect(
                                panels[j].area,
                                x as int,
                                y as int,
                            ) implies colors[(x, y)] == (
                            Some(Paint::Rgb(panels[j].color)),
                            Some(Paint::Black),
                        ) by {
                            if in_rect(row, x as int, y as int) {
                                lemma_stacked_apart(panels, j, k as int, x as int, y as int);
                            }
                            assert(cols[(x, y)] == (
                                Some(Paint::Rgb(panels[j].color)),
                                Some(Paint::Black),
                            ));
                        }
                    } else {
                        assert forall|x: u16, y: u16| in_rect(panels[j].area, x as int, y as int)
                            implies after[(x, y)] == if written.dom().contains((x, y)) {
                            written[(x, y)]
                        } else {
                            syms0[(x, y)]
                        } by {
                            assert forall|i: int| 0 <= i < k implies !in_rect(
                                #[trigger] panels.take(k as int)[i].area,
                                x as int,
                                y as int,
                            ) by {
                                lemma_stacked_apart(panels, i, k as int, x as int, y as int);
                            }
                            assert(in_no_panel(panels.take(k as int), x as int, y as int));
                            assert(in_rect(inner, x as int, y as int));
                            assert(syms[(x, y)] == syms0[(x, y)]);
                        }
                    }
                }
                assert forall|x: u16, y: u16|
                    in_rect(inner, x as int, y as int) && in_no_panel(
                        panels.take(k + 1),
                        x as int,
                        y as int,
                    ) implies in_no_panel(panels.take(k as int), x as int, y as int) && !in_rect(
                    row,
                    x as int,
                    y as int,
                ) by {
                    assert(panels.take(k + 1)[k as int] == panels[k as int]);
                    assert forall|i: int| 0 <= i < k implies !in_rect(
                        #[trigger] panels.take(k as int)[i].area,
                        x as int,
                        y as int,
                    ) by {
                        assert(panels.take(k + 1)[i] == panels[i]);
                    }
                }
            }
        }
        k = k + 1;
    }
    proof {
        assert(plan.panels@.take(plan.panels@.len() as int) =~= plan.panels@);
    }
    plan
}

/// Inside a border that fits, a cell of the bordered area that is not on the border lies
/// inside it.
proof fn lemma_off_border_cells(area: ScreenRect, x: int, y: int)
    requires
        area.width >= 2 && area.height >= 2 && unclipped(area),
        in_rect(area, x, y),
        border_symbol(area, x, y) is None,
    ensures
        in_rect(bordered_inner(area), x, y),
{
}

/// Two drawings on equal frames, in modes with the same horizontal margin whose panels in the
/// stacked rows are the same, leave equal frames.
proof fn lemma_same_panels_draw_alike(
    before1: Frame,
    after1: Frame,
    plan1: ScreenPlan,
    mode1: SceneMode,
    frame_index1: u64,
    stage1: ShutdownStage,
    flash_on1: bool,
    before2: Frame,
    after2: Frame,
    plan2: ScreenPlan,
    mode2: SceneMode,
    frame_index2: u64,
    stage2: ShutdownStage,
    flash_on2: bool,
)
    requires
        frame_viewport(before1) == frame_viewport(before2),
        frame_symbols(before1) == frame_symbols(before2),
        frame_colors(before1) == frame_colors(before2),
        draws_card(before1, after1, plan1, mode1, frame_index1, stage1, flash_on1),
        draws_card(before2, after2, plan2, mode2, frame_index2, stage2, flash_on2),
        horizontal_margin_of(mode1) == horizontal_margin_of(mode2),
        planned_panels(mode1, stacked_rows(plan1.inner, row_heights()), frame_index1, stage1, flash_on1)
            == planned_panels(mode2, stacked_rows(plan1.inner, row_heights()), frame_index2, stage2, flash_on2),
        border_fits(plan1.frame_area, frame_symbols(before1)),
        lengths_fill(plan1.inner, row_heights()),
    ensures
        panel_views(plan1.panels@) == panel_views(plan2.panels@),
        frame_symbols(after1) == frame_symbols(after2),
        frame_colors(after1) == frame_colors(after2),
{
    let area = frame_viewport(before1);
    let fa = plan1.frame_area;
    let inner = plan1.inner;
    let s0 = frame_symbols(before1);
    let c0 = frame_colors(before1);
    let sa = frame_symbols(after1);
    let sb = frame_symbols(after2);
    let ca = frame_colors(after1);
    let cb = frame_colors(after2);
    let panels1 = plan1.panels@;
    let panels2 = plan2.panels@;
    assert(plan2.frame_area == fa && plan2.inner == inner);
    assert(plan1.rows@ == plan2.rows@);
    assert(panel_views(panels1) == panel_views(panels2));
    assert(panels1.len() == panel_views(panels1).len());
    assert(panels2.len() == panel_views(panels2).len());
    assert forall|k: int| 0 <= k < panels1.len() implies #[trigger] panels1[k]@ == panels2[k]@ by {
        assert(panel_views(panels1)[k] == panels1[k]@);
        assert(panel_views(panels2)[k] == panels2[k]@);
    }
    assert forall|x: u16, y: u16| in_no_panel(panels1, x as int, y as int) implies in_no_panel(
        panels2,
        x as int,
        y as int,
    ) by {
        assert forall|k: int| 0 <= k < panels2.len() implies !in_rect(
            #[trigger] panels2[k].area,
            x as int,
            y as int,
        ) by {
            assert(panels1[k]@ == panels2[k]@);
            assert(!in_rect(panels1[k].area, x as int, y as int));
        }
    }
    assert forall|x: u16, y: u16| #[trigger] s0.dom().contains((x, y)) implies sa[(x, y)] == sb[(
        x,
        y,
    )] by {
        if in_rect(fa, x as int, y as int) && border_symbol(fa, x as int, y as int) is None {
            lemma_off_border_cells(fa, x as int, y as int);
            if !in_no_panel(panels1, x as int, y as int) {
                let k = choose|k: int| 0 <= k < panels1.len() && in_rect(
                    #[trigger] panels1[k].area,
                    x as int,
                    y as int,
                );
                assert(panels1[k]@ == panels2[k]@);
                assert(shows_text(panels1[k], s0, sa));
                assert(shows_text(panels2[k], s0, sb));
            }
        }
    }
    assert forall|p: (u16, u16)| #[trigger] sa.dom().contains(p) implies sa[p] == sb[p] by {
        assert(s0.dom().contains((p.0, p.1)));
    }
    assert(sa =~= sb);
    assert forall|x: u16, y: u16| #[trigger] c0.dom().contains((x, y)) implies ca[(x, y)] == cb[(
        x,
        y,
    )] by {
        if in_rect(fa, x as int, y as int) {
            lemma_margin_inner_cells(area, horizontal_margin_of(mode1), x as int, y as int);
            if border_symbol(fa, x as int, y as int) is None {
                lemma_off_border_cells(fa, x as int, y as int);
                if !in_no_panel(panels1, x as int, y as int) {
                    let k = choose|k: int| 0 <= k < panels1.len() && in_rect(
                        #[trigger] panels1[k].area,
                        x as int,
                        y as int,
                    );
                    assert(panels1[k]@ == panels2[k]@);
                    assert(painted_in(panels1[k], ca));
                    assert(painted_in(panels2[k], cb));
                }
            }
        }
        assert(ca[(x, y)].0 == cb[(x, y)].0);
        assert(ca[(x, y)].1 == cb[(x, y)].1);
    }
    assert forall|p: (u16, u16)| #[trigger] ca.dom().contains(p) implies ca[p] == cb[p] by {
        assert(c0.dom().contains((p.0, p.1)));
    }
    assert(ca =~= cb);
}

/// Scene modes that show the same card (orbit and zoom-in, or the two goodbye modes) draw the
/// same frame: on equal frames, with the same update, stage and lighting, they plan the same
/// panels and leave equal symbols and colours, wherever the border fits in the buffer and the
/// row heights fill the inside of the border.
pub proof fn lemma_same_card_draws_alike(
    before1: Frame,
    after1: Frame,
    plan1: ScreenPlan,
    mode1: SceneMode,
    before2: Frame,
    after2: Frame,
    plan2: ScreenPlan,
    mode2: SceneMode,
    frame_index: u64,
    stage: ShutdownStage,
    flash_on: bool,
)
    requires
        card_of(mode1) == card_of(mode2),
        frame_viewport(before1) == frame_viewport(before2),
        frame_symbols(before1) == frame_symbols(before2),
        frame_colors(before1) == frame_colors(before2),
        draws_card(before1, after1, plan1, mode1, frame_index, stage, flash_on),
        draws_card(before2, after2, plan2, mode2, frame_index, stage, flash_on),
        border_fits(plan1.frame_area, frame_symbols(before1)),
        lengths_fill(plan1.inner, row_heights()),
    ensures
        panel_views(plan1.panels@) == panel_views(plan2.panels@),
        frame_symbols(after1) == frame_symbols(after2),
        frame_colors(after1) == frame_colors(after2),
{
    lemma_same_panels_draw_alike(
        before1, after1, plan1, mode1, frame_index, stage, flash_on,
        before2, after2, plan2, mode2, frame_index, stage, flash_on,
    );
}

/// The drawn live-soon card repeats every 16 updates: on equal frames, drawing it at update
/// `frame_index` and 16 updates later plans the same panels and leaves equal symbols and
/// colours, wherever the border fits in the buffer and the row heights fill the inside of the
/// border.
pub proof fn lemma_drawn_live_soon_repeats(
    before1: Frame,
    after1: Frame,
    plan1: ScreenPlan,
    before2: Frame,
    after2: Frame,
    plan2: ScreenPlan,
    mode: SceneMode,
    frame_index: u64,
    stage: ShutdownStage,
    flash_on: bool,
)
    requires
        card_of(mode) == ScreenCard::LiveSoon,
        frame_index + 16 <= u64::MAX,
        frame_viewport(before1) == frame_viewport(before2),
        frame_symbols(before1) == frame_symbols(before2),
        frame_colors(before1) == frame_colors(before2),
        draws_card(before1, after1, plan1, mode, frame_index, stage, flash_on),
        draws_card(before2, after2, plan2, mode, (frame_index + 16) as u64, stage, flash_on),
        border_fits(plan1.frame_area, frame_symbols(before1)),
        lengths_fill(plan1.inner, row_heights()),
    ensures
        panel_views(plan1.panels@) == panel_views(plan2.panels@),
        frame_symbols(after1) == frame_symbols(after2),
        frame_colors(after1) == frame_colors(after2),
{
    lemma_live_soon_repeats(frame_index);
    let rows = stacked_rows(plan1.inner, row_heights());
    assert(planned_panels(mode, rows, (frame_index + 16) as u64, stage, flash_on) == planned_panels(
        mode, rows, frame_index, stage, flash_on));
    lemma_same_panels_draw_alike(
        before1, after1, plan1, mode, frame_index, stage, flash_on,
        before2, after2, plan2, mode, (frame_index + 16) as u64, stage, flash_on,
    );
}

/// The drawn intermission card repeats with its loop of 96 updates: on equal frames, drawing
/// it at update `frame_index` and 96 updates later plans the same panels and leaves equal
/// symbols and colours, wherever the border fits in the buffer and the row heights fill the
/// inside of the border.
pub proof fn lemma_drawn_intermission_repeats(
    before1: Frame,
    after1: Frame,
    plan1: ScreenPlan,
    before2: Frame,
    after2: Frame,
    plan2: ScreenPlan,
    mode: SceneMode,
    frame_index: u64,
    stage: ShutdownStage,
    flash_on: bool,
)
    requires
        card_of(mode) == ScreenCard::Intermission,
        frame_index + 96 <= u64::MAX,
        frame_viewport(before1) == frame_viewport(before2),
        frame_symbols(before1) == frame_symbols(before2),
        frame_colors(before1) == frame_colors(before2),
        draws_card(before1, after1, plan1, mode, frame_index, stage, flash_on),
        draws_card(before2, after2, plan2, mode, (frame_index + 96) as u64, stage, flash_on),
        border_fits(plan1.frame_area, frame_symbols(before1)),
        lengths_fill(plan1.inner, row_heights()),
    ensures
        panel_views(plan1.panels@) == panel_views(plan2.panels@),
        frame_symbols(after1) == frame_symbols(after2),
        frame_colors(after1) == frame_colors(after2),
{
    lemma_intermission_repeats(frame_index);
    let rows = stacked_rows(plan1.inner, row_heights());
    assert(planned_panels(mode, rows, (frame_index + 96) as u64, stage, flash_on) == planned_panels(
        mode, rows, frame_index, stage, flash_on));
    lemma_same_panels_draw_alike(
        before1, after1, plan1, mode, frame_index, stage, flash_on,
        before2, after2, plan2, mode, (frame_index + 96) as u64, stage, flash_on,
    );
}

/// Whether an atlas template of `len` bytes, for an image `width` by `height` pixels, holds
/// every pixel of the screen's rectangle that lies in the image, at byte offsets that fit in a
/// `u32`.
pub open spec fn atlas_fits(width: u32, height: u32, len: nat) -> bool {
    target_fits(
        width as int,
        height as int,
        SCREEN_ATLAS_X as int,
        SCREEN_ATLAS_Y as int,
        SCREEN_ATLAS_WIDTH as int,
        SCREEN_ATLAS_HEIGHT as int,
        len as int,
    )
}

/// Whether a rendered pixmap `width` by `height` pixels, given as `len` RGBA8 bytes, can be
/// put on the atlas: it is not empty, it holds all its bytes, and its byte offsets and scaling
/// products fit in a `u32`.
pub open spec fn pixmap_fits(width: int, height: int, len: nat) -> bool {
    &&& 0 < width
    &&& 0 < height
    &&& width * height * 4 <= u32::MAX
    &&& width * height * 4 <= len
    &&& 156 * height <= u32::MAX
    &&& 232 * width <= u32::MAX
}

/// The image bevy decodes from the bytes of a PNG file, taken as sRGB: its pixel data, width
/// and height; `None` when the bytes do not decode or the image holds no pixel data.
pub uninterp spec fn png_pixels(png: Seq<u8>) -> Option<(Seq<u8>, u32, u32)>;

/// Calls `bevy::image::Image::from_buffer` on the bytes of a PNG file (sRGB, nearest-neighbour
/// sampling, kept in both worlds) and hands back the decoded pixel data with the image's width
/// and height. The source decodes with the `image` crate, whose output depends on the bytes
/// alone; the contract names the result `png_pixels`.
#[verifier::external_body]
fn decode_png(png: &[u8]) -> (decoded: Option<(Vec<u8>, u32, u32)>)
    ensures
        match decoded {
            Some(d) => png_pixels(png@) == Some((d.0@, d.1, d.2)),
            None => png_pixels(png@) is None,
        },
{
    let usage = RenderAssetUsages::MAIN_WORLD | RenderAssetUsages::RENDER_WORLD;
    let png_type = ImageType::Extension("png");
    match Image::from_buffer(png, png_type, CompressedImageFormats::NONE, true, ImageSampler::nearest(), usage) {
        Ok(image) => {
            let size = image.texture_descriptor.size;
            image.data.map(|data| (data, size.width, size.height))
        },
        Err(_) => None,
    }
}

/// The state of the terminal screen besides the terminal itself: its animation, the scene
/// mode whose card it shows, and the texture atlas template the screen is drawn on.
pub struct TerminalScreenState {
    demo_app: TerminalDemoApp,
    scene_mode: SceneMode,
    atlas_width: u32,
    atlas_height: u32,
    atlas_template: Vec<u8>,
}

impl TerminalScreenState {
    #[verifier::type_invariant]
    spec fn atlas_ok(self) -> bool {
        atlas_fits(self.atlas_width, self.atlas_height, self.atlas_template@.len())
    }

    /// The animation state.
    pub closed spec fn demo(self) -> TerminalDemoApp {
        self.demo_app
    }

    /// The scene mode whose card the screen shows.
    pub closed spec fn mode(self) -> SceneMode {
        self.scene_mode
    }

    /// The atlas template as bytes, with its width and height in pixels.
    pub closed spec fn atlas(self) -> (Seq<u8>, u32, u32) {
        (self.atlas_template@, self.atlas_width, self.atlas_height)
    }

    /// The state of a fresh screen for a scene mode, drawn on the atlas template decoded from
    /// the model's texture, an `atlas_width` by `atlas_height` RGBA8 image. Gives `None` when
    /// the template does not hold every pixel of the screen's rectangle that lies in the image,
    /// or their byte offsets do not fit in a `u32` (see `atlas_fits`).
    pub fn new(scene_mode: SceneMode, atlas_template: Vec<u8>, atlas_width: u32, atlas_height: u32)
        -> (state: Option<Self>)
        ensures
            state is Some <==> atlas_fits(atlas_width, atlas_height, atlas_template@.len()),
            state matches Some(s) ==> s.demo().frame_count == 0 && s.mode() == scene_mode && s.atlas()
                == (atlas_template@, atlas_width, atlas_height),
    {
        let end_x: u64 = if (SCREEN_ATLAS_X as u64) + (SCREEN_ATLAS_WIDTH as u64) <= atlas_width as u64 {
            (SCREEN_ATLAS_X as u64) + (SCREEN_ATLAS_WIDTH as u64)
        } else {
            atlas_width as u64
        };
        let end_y: u64 = if (SCREEN_ATLAS_Y as u64) + (SCREEN_ATLAS_HEIGHT as u64) <= atlas_height as u64 {
            (SCREEN_ATLAS_Y as u64) + (SCREEN_ATLAS_HEIGHT as u64)
        } else {
            atlas_height as u64
        };
        if (SCREEN_ATLAS_X as u64) < end_x && (SCREEN_ATLAS_Y as u64) < end_y {
            assert((end_y - 1) * (atlas_width as u64) <= 695 * 0xffff_ffff) by (nonlinear_arith)
                requires
                    end_y - 1 <= 695,
                    atlas_width <= 0xffff_ffff,
            ;
            let offset: u64 = ((end_y - 1) * (atlas_width as u64) + end_x - 1) * 4;
            if offset > (u32::MAX as u64) || offset + 4 > atlas_template.len() as u64 {
                return None;
            }
        }
        Some(
            TerminalScreenState {
                demo_app: TerminalDemoApp::new(),
                scene_mode,
                atlas_width,
                atlas_height,
                atlas_template,
            },
        )
    }

    /// The state of a fresh screen for a scene mode, drawn on the atlas template decoded from
    /// the bytes of the model's PNG texture. Gives `None` when the bytes do not decode to an
    /// image, or the image does not fit the screen (see `new`).
    pub fn from_png(scene_mode: SceneMode, png: &[u8]) -> (state: Option<Self>)
        ensures
            state is Some <==> (png_pixels(png@) matches Some(image) && atlas_fits(
                image.1,
                image.2,
                image.0.len(),
            )),
            state matches Some(s) ==> png_pixels(png@) == Some(s.atlas()) && s.mode() == scene_mode
                && s.demo().frame_count == 0,
    {
        match decode_png(png) {
            Some((data, width, height)) => TerminalScreenState::new(scene_mode, data, width, height),
            None => None,
        }
    }

    /// Number of updates the screen has shown.
    pub fn frame_count(&self) -> (count: u64)
        ensures
            count == self.demo().frame_count,
    {
        self.demo_app.frame_count
    }

    /// The scene mode whose card the screen shows.
    pub fn scene_mode(&self) -> (mode: SceneMode)
        ensures
            mode == self.mode(),
    {
        self.scene_mode
    }

    /// Width and height of the atlas in pixels.
    pub fn atlas_size(&self) -> (size: (u32, u32))
        ensures
            size == (self.atlas().1, self.atlas().2),
    {
        (self.atlas_width, self.atlas_height)
    }

    /// Counts one more update of the screen.
    pub fn on_tick(&mut self)
        ensures
            final(self).demo().frame_count == (old(self).demo().frame_count + 1) % (u64::MAX + 1),
            final(self).mode() == old(self).mode(),
            final(self).atlas() == old(self).atlas(),
    {
        proof {
            use_type_invariant(&*self);
        }
        let next = self.demo_app.frame_count.wrapping_add(1);
        self.demo_app = TerminalDemoApp { frame_count: next };
    }

    /// Puts a rendered pixmap (`width` by `height` pixels of RGBA8 bytes) on a copy of the
    /// atlas template: flipped, turned a quarter turn counter-clockwise and scaled into the
    /// screen's rectangle. Gives `None` when the pixmap cannot be put on the atlas (see
    /// `pixmap_fits`).
    pub fn atlas_with_pixmap(&self, width: usize, height: usize, rgba: &[u8]) -> (atlas: Option<
        Vec<u8>,
    >)
        ensures
            atlas is Some <==> pixmap_fits(width as int, height as int, rgba@.len()),
            atlas matches Some(a) ==> a@ == screen_on_atlas(
                self.atlas().0,
                self.atlas().1 as int,
                self.atlas().2 as int,
                width as nat,
                height as nat,
                rgba@,
            ),
    {
        proof {
            use_type_invariant(self);
        }
        if width == 0 || height == 0 || width > 0x3fff_ffff || height > 0x3fff_ffff {
            return None;
        }
        let w = width as u32;
        let h = height as u32;
        assert(w * h <= 0x3fff_ffff * 0x3fff_ffff) by (nonlinear_arith)
            requires
                w <= 0x3fff_ffff,
                h <= 0x3fff_ffff,
        ;
        let bytes: u64 = (w as u64) * (h as u64) * 4;
        if bytes > (u32::MAX as u64) || bytes > rgba.len() as u64 {
            return None;
        }
        if 156 * (h as u64) > (u32::MAX as u64) || 232 * (w as u64) > (u32::MAX as u64) {
            return None;
        }
        let atlas = screen_to_atlas_pixels(
            self.atlas_template.as_slice(),
            self.atlas_width,
            self.atlas_height,
            w,
            h,
            rgba,
        );
        Some(atlas)
    }
}

} // verus!
