//! What the terminal screen shows in each scene mode: the cell rectangles of its panels, their
//! text and their colours.

use vstd::prelude::*;
use crate::layout::{
    ScreenRect, block_inner, bordered_inner, is_row_of, length_total, lengths_fill, margin_inner,
    rect_inner, stacked_rows, vertical_split,
};
use crate::progress::SceneMode;

verus! {

/// Columns of the terminal screen.
pub const SCREEN_COLUMNS: u16 = 14;

/// Rows of the terminal screen.
pub const SCREEN_ROWS: u16 = 7;

/// Screen updates per second.
pub const TUI_UPDATE_FPS: u64 = 15;

/// Screen updates in one loop of the intermission card: its 6.4 s loop at 15 updates per
/// second.
pub const INTERMISSION_LOOP_UPDATES: u64 = 96;

/// Screen updates between steps of the intermission spinner.
pub const INTERMISSION_SPINNER_STEP_UPDATES: u64 = 8;

/// An RGB colour.
#[derive(Clone, Copy, Debug, PartialEq, Eq, Structural)]
pub struct Rgb {
    pub r: u8,
    pub g: u8,
    pub b: u8,
}

/// A colour with the given components.
pub open spec fn rgb(r: u8, g: u8, b: u8) -> Rgb {
    Rgb { r, g, b }
}

/// The state of the screen's animation: how many updates it has shown.
#[derive(Clone, Copy, Debug, PartialEq, Eq, Structural)]
pub struct TerminalDemoApp {
    pub frame_count: u64,
}

impl TerminalDemoApp {
    /// An animation that has shown no update yet.
    pub fn new() -> (app: Self)
        ensures
            app.frame_count == 0,
    {
        TerminalDemoApp { frame_count: 0 }
    }

    /// Counts one more update, wrapping around after `u64::MAX`.
    pub fn on_tick(&mut self)
        ensures
            final(self).frame_count == (old(self).frame_count + 1) % (u64::MAX + 1),
    {
        self.frame_count = self.frame_count.wrapping_add(1);
    }
}

/// Which card the screen shows.
#[derive(Clone, Copy, Debug, PartialEq, Eq, Structural)]
pub enum ScreenCard {
    LiveSoon,
    Intermission,
    Goodbye,
}

/// Stage of the goodbye card, chosen by how far the goodbye has run.
#[derive(Clone, Copy, Debug, PartialEq, Eq, Structural)]
pub enum ShutdownStage {
    ThanksForWatching,
    SeeYouSoon,
    HaveANiceDay,
}

/// A block of text drawn centred in a rectangle of the screen.
#[derive(Debug)]
pub struct TextPanel {
    pub area: ScreenRect,
    pub text: String,
    pub color: Rgb,
}

impl View for TextPanel {
    type V = (ScreenRect, Seq<char>, Rgb);

    open spec fn view(&self) -> (ScreenRect, Seq<char>, Rgb) {
        (self.area, self.text@, self.color)
    }
}

/// What to draw on the screen: a black background, a border around `frame_area`, the title,
/// status and message rows inside the border, and text panels in those rows.
#[derive(Debug)]
pub struct ScreenPlan {
    pub frame_area: ScreenRect,
    pub inner: ScreenRect,
    pub rows: Vec<ScreenRect>,
    pub panels: Vec<TextPanel>,
}

/// The card shown in each scene mode.
pub open spec fn card_of(mode: SceneMode) -> ScreenCard {
    match mode {
        SceneMode::Orbit | SceneMode::ZoomIn => ScreenCard::LiveSoon,
        SceneMode::Intermission => ScreenCard::Intermission,
        SceneMode::ShutdownOutro | SceneMode::ShutdownLoop => ScreenCard::Goodbye,
    }
}

/// The card shown in a scene mode.
pub fn screen_card(mode: SceneMode) -> (card: ScreenCard)
    ensures
        card == card_of(mode),
{
    match mode {
        SceneMode::Orbit | SceneMode::ZoomIn => ScreenCard::LiveSoon,
        SceneMode::Intermission => ScreenCard::Intermission,
        SceneMode::ShutdownOutro | SceneMode::ShutdownLoop => ScreenCard::Goodbye,
    }
}

/// Cells left blank to the left and right of the border: none for the goodbye card, one
/// otherwise.
pub open spec fn horizontal_margin_of(mode: SceneMode) -> u16 {
    if card_of(mode) == ScreenCard::Goodbye { 0 } else { 1 }
}

/// Cells left blank to the left and right of the border in a scene mode.
pub fn screen_horizontal_margin(mode: SceneMode) -> (margin: u16)
    ensures
        margin == horizontal_margin_of(mode),
{
    match mode {
        SceneMode::ShutdownOutro | SceneMode::ShutdownLoop => 0,
        _ => 1,
    }
}

/// Colour of the border.
pub fn border_color() -> (color: Rgb)
    ensures
        color == rgb(70, 120, 70),
{
    Rgb { r: 70, g: 120, b: 70 }
}

/// Colour of the title.
pub open spec fn title_color() -> Rgb {
    rgb(150, 255, 150)
}

/// The title shown on every card.
pub open spec fn title_chars() -> Seq<char> {
    "TERMINAL\nCOLLECTIVE"@
}

/// The title shown on every card, one line per word.
pub fn title_text() -> (title: String)
    ensures
        title@ == title_chars(),
{
    String::from_str("TERMINAL\nCOLLECTIVE")
}

// ---- live soon card ----

/// Spinner character of the live-soon card at update `frame_index`.
pub open spec fn live_soon_spinner(frame_index: u64) -> char {
    seq!['|', '/', '-', '\\'][(frame_index % 4) as int]
}

/// The loading bar at update `frame_index`: eight cells, all `-` but the one at
/// `frame_index % 8`, which is `#`.
pub open spec fn loader_bar_chars(frame_index: u64) -> Seq<char> {
    Seq::new(8, |k: int| if k == (frame_index % 8) as int { '#' } else { '-' })
}

/// The loading line of the live-soon card: the bar between two spinners.
pub open spec fn live_soon_status_chars(frame_index: u64) -> Seq<char> {
    seq![live_soon_spinner(frame_index)] + loader_bar_chars(frame_index) + seq![
        live_soon_spinner(frame_index),
    ]
}

/// Whether "LIVE SOON" is lit at update `frame_index`: it is lit for eight updates, then dim
/// for eight.
pub open spec fn live_soon_flash_on(frame_index: u64) -> bool {
    (frame_index / 8) % 2 == 0
}

/// Colour of "LIVE SOON".
pub open spec fn live_color(flash_on: bool) -> Rgb {
    if flash_on { rgb(255, 240, 170) } else { rgb(80, 70, 30) }
}

/// Spinner of the live-soon card as a one-character string.
fn live_soon_spinner_text(frame_index: u64) -> (text: &'static str)
    ensures
        text@ == seq![live_soon_spinner(frame_index)],
{
    proof {
        reveal_strlit("|");
        reveal_strlit("/");
        reveal_strlit("-");
        reveal_strlit("\\");
    }
    match frame_index % 4 {
        0 => "|",
        1 => "/",
        2 => "-",
        _ => "\\",
    }
}

/// The loading bar of the live-soon card at update `frame_index`.
pub fn loader_bar(frame_index: u64) -> (bar: String)
    ensures
        bar@ == loader_bar_chars(frame_index),
{
    let sweep: u64 = frame_index % 8;
    let mut bar = String::new();
    let mut idx: u64 = 0;
    while idx < 8
        invariant
            idx <= 8,
            sweep == frame_index % 8,
            bar@ == Seq::new(idx as nat, |k: int| if k == sweep as int { '#' } else { '-' }),
        decreases 8 - idx,
    {
        proof {
            reveal_strlit("#");
            reveal_strlit("-");
        }
        if idx == sweep {
            bar.append("#");
        } else {
            bar.append("-");
        }
        idx = idx + 1;
        assert(bar@ =~= Seq::new(idx as nat, |k: int| if k == sweep as int { '#' } else { '-' }));
    }
    bar
}

/// The loading line of the live-soon card at update `frame_index`.
pub fn live_soon_status_line(frame_index: u64) -> (line: String)
    ensures
        line@ == live_soon_status_chars(frame_index),
{
    let spinner = live_soon_spinner_text(frame_index);
    let bar = loader_bar(frame_index);
    let mut line = String::from_str(spinner);
    line.append(bar.as_str());
    line.append(spinner);
    line
}

/// Whether "LIVE SOON" is lit at update `frame_index`.
pub fn live_soon_flash(frame_index: u64) -> (flash_on: bool)
    ensures
        flash_on == live_soon_flash_on(frame_index),
{
    (frame_index / 8).is_multiple_of(2)
}

// ---- intermission card ----

/// Spinner character of the intermission card at update `frame_index`.
pub open spec fn intermission_spinner(frame_index: u64) -> char {
    seq!['.', 'o', 'O', 'o'][((frame_index / 8) % 4) as int]
}

/// The status line of the intermission card.
pub open spec fn intermission_status_chars(frame_index: u64) -> Seq<char> {
    seq![intermission_spinner(frame_index)] + " WAITING PATTERN "@ + seq![
        intermission_spinner(frame_index),
    ]
}

/// Which of the four phrases the intermission card shows at update `frame_index`: each shows
/// for a quarter of the loop.
pub open spec fn intermission_phrase_index(frame_index: u64) -> int {
    ((frame_index % 96) * 4 / 96) as int
}

/// The phrase the intermission card shows at update `frame_index`.
pub open spec fn intermission_phrase_chars(frame_index: u64) -> Seq<char> {
    let phase = intermission_phrase_index(frame_index);
    if phase == 0 {
        "RECESS\nSTANDBY"@
    } else if phase == 1 {
        "HOLD\nPAUSE"@
    } else if phase == 2 {
        "RECESS\nHOLD"@
    } else {
        "STANDBY\nPAUSE"@
    }
}

/// Spinner of the intermission card as a one-character string.
fn intermission_spinner_text(frame_index: u64) -> (text: &'static str)
    ensures
        text@ == seq![intermission_spinner(frame_index)],
{
    proof {
        reveal_strlit(".");
        reveal_strlit("o");
        reveal_strlit("O");
    }
    match (frame_index / INTERMISSION_SPINNER_STEP_UPDATES) % 4 {
        0 => ".",
        1 => "o",
        2 => "O",
        _ => "o",
    }
}

/// The status line of the intermission card at update `frame_index`.
pub fn intermission_status_line(frame_index: u64) -> (line: String)
    ensures
        line@ == intermission_status_chars(frame_index),
{
    let spinner = intermission_spinner_text(frame_index);
    let mut line = String::from_str(spinner);
    line.append(" WAITING PATTERN ");
    line.append(spinner);
    line
}

/// The phrase the intermission card shows at update `frame_index`.
pub fn intermission_phrase(frame_index: u64) -> (phrase: String)
    ensures
        phrase@ == intermission_phrase_chars(frame_index),
{
    let phase_updates: u64 = frame_index % INTERMISSION_LOOP_UPDATES;
    let phrase_phase: u64 = (phase_updates * 4) / INTERMISSION_LOOP_UPDATES;
    match phrase_phase % 4 {
        0 => String::from_str("RECESS\nSTANDBY"),
        1 => String::from_str("HOLD\nPAUSE"),
        2 => String::from_str("RECESS\nHOLD"),
        _ => String::from_str("STANDBY\nPAUSE"),
    }
}

// ---- goodbye card ----

/// The message of each stage of the goodbye card.
pub open spec fn shutdown_message_chars(stage: ShutdownStage) -> Seq<char> {
    match stage {
        ShutdownStage::ThanksForWatching => "THANKS FOR\nWATCHING"@,
        ShutdownStage::SeeYouSoon => "GOODBYE\nSEE YOU SOON"@,
        ShutdownStage::HaveANiceDay => "HAVE A\nNICE DAY"@,
    }
}

/// Colour of the goodbye message, lit or dim.
pub open spec fn shutdown_color_of(stage: ShutdownStage, flash_on: bool) -> Rgb {
    match stage {
        ShutdownStage::ThanksForWatching => if flash_on {
            rgb(215, 225, 180)
        } else {
            rgb(110, 118, 94)
        },
        ShutdownStage::SeeYouSoon => if flash_on {
            rgb(108, 205, 108)
        } else {
            rgb(52, 98, 52)
        },
        ShutdownStage::HaveANiceDay => if flash_on {
            rgb(82, 145, 82)
        } else {
            rgb(36, 64, 36)
        },
    }
}

/// The message of a stage of the goodbye card.
pub fn shutdown_message(stage: ShutdownStage) -> (message: String)
    ensures
        message@ == shutdown_message_chars(stage),
{
    match stage {
        ShutdownStage::ThanksForWatching => String::from_str("THANKS FOR\nWATCHING"),
        ShutdownStage::SeeYouSoon => String::from_str("GOODBYE\nSEE YOU SOON"),
        ShutdownStage::HaveANiceDay => String::from_str("HAVE A\nNICE DAY"),
    }
}

/// Colour of the goodbye message at a stage, lit or dim.
pub fn shutdown_color(stage: ShutdownStage, flash_on: bool) -> (color: Rgb)
    ensures
        color == shutdown_color_of(stage, flash_on),
{
    match stage {
        ShutdownStage::ThanksForWatching => if flash_on {
            Rgb { r: 215, g: 225, b: 180 }
        } else {
            Rgb { r: 110, g: 118, b: 94 }
        },
        ShutdownStage::SeeYouSoon => if flash_on {
            Rgb { r: 108, g: 205, b: 108 }
        } else {
            Rgb { r: 52, g: 98, b: 52 }
        },
        ShutdownStage::HaveANiceDay => if flash_on {
            Rgb { r: 82, g: 145, b: 82 }
        } else {
            Rgb { r: 36, g: 64, b: 36 }
        },
    }
}

/// Whether the goodbye message is lit, given how many half seconds the goodbye has run: lit
/// for one half second, dim for the next.
pub fn goodbye_flash(half_seconds: u64) -> (flash_on: bool)
    ensures
        flash_on == (half_seconds % 2 == 0),
{
    half_seconds.is_multiple_of(2)
}

// ---- the whole screen ----

/// Heights of the title, status and message rows inside the border.
pub open spec fn row_heights() -> Seq<u16> {
    seq![2u16, 1u16, 2u16]
}

/// The panels of a card, given the rows that the layout gives the inside of the border.
pub open spec fn planned_panels(
    mode: SceneMode,
    rows: Seq<ScreenRect>,
    frame_index: u64,
    stage: ShutdownStage,
    flash_on: bool,
) -> Seq<(ScreenRect, Seq<char>, Rgb)> {
    match card_of(mode) {
        ScreenCard::LiveSoon => seq![
            (rows[0], title_chars(), title_color()),
            (rows[1], live_soon_status_chars(frame_index), rgb(110, 255, 110)),
            (rows[2], "LIVE SOON"@, live_color(live_soon_flash_on(frame_index))),
        ],
        ScreenCard::Intermission => seq![
            (rows[0], title_chars(), title_color()),
            (rows[1], intermission_status_chars(frame_index), rgb(92, 180, 100)),
            (rows[2], intermission_phrase_chars(frame_index), rgb(215, 225, 180)),
        ],
        ScreenCard::Goodbye => seq![
            (rows[0], title_chars(), title_color()),
            (rows[2], shutdown_message_chars(stage), shutdown_color_of(stage, flash_on)),
        ],
    }
}

/// The views of a list of panels.
pub open spec fn panel_views(panels: Seq<TextPanel>) -> Seq<(ScreenRect, Seq<char>, Rgb)> {
    panels.map_values(|p: TextPanel| p@)
}

/// Whether each panel's rectangle ends no lower than the next one starts.
pub open spec fn panels_stacked(panels: Seq<TextPanel>) -> bool {
    forall|j: int, k: int|
        0 <= j < k < panels.len() ==> #[trigger] panels[j].area.y + panels[j].area.height
            <= #[trigger] panels[k].area.y
}

/// Whether `plan` lays out and fills the screen `area` for `mode`: the border sits inside
/// `area` with the mode's horizontal margin, the inside of the border is split into title,
/// status and message rows (stacked one under the other when their heights fill it), and the
/// panels are the mode's card at update `frame_index` in those rows.
pub open spec fn is_screen_plan(
    plan: ScreenPlan,
    mode: SceneMode,
    area: ScreenRect,
    frame_index: u64,
    stage: ShutdownStage,
    flash_on: bool,
) -> bool {
    &&& plan.frame_area == margin_inner(area, horizontal_margin_of(mode), 0)
    &&& plan.inner == bordered_inner(plan.frame_area)
    &&& plan.rows@.len() == 3
    &&& forall|k: int| 0 <= k < 3 ==> is_row_of(#[trigger] plan.rows@[k], plan.inner)
    &&& lengths_fill(plan.inner, row_heights()) ==> plan.rows@ == stacked_rows(
        plan.inner,
        row_heights(),
    )
    &&& panel_views(plan.panels@) == planned_panels(mode, plan.rows@, frame_index, stage, flash_on)
    &&& forall|k: int|
        0 <= k < plan.panels@.len() ==> is_row_of(#[trigger] plan.panels@[k].area, plan.inner)
    &&& lengths_fill(plan.inner, row_heights()) ==> panels_stacked(plan.panels@)
}

/// Lays out and fills the screen for a scene mode (see `is_screen_plan`). The goodbye card
/// shows the message of `stage`, lit when `flash_on` holds.
pub fn plan_terminal_screen(
    mode: SceneMode,
    area: ScreenRect,
    frame_index: u64,
    stage: ShutdownStage,
    flash_on: bool,
) -> (plan: ScreenPlan)
    ensures
        is_screen_plan(plan, mode, area, frame_index, stage, flash_on),
{
    let frame_area = rect_inner(area, screen_horizontal_margin(mode), 0);
    let inner = block_inner(frame_area);
    let heights: Vec<u16> = vec![2u16, 1u16, 2u16];
    assert(heights@ =~= row_heights());
    let rows = vertical_split(inner, &heights);
    let title = TextPanel { area: rows[0], text: title_text(), color: Rgb { r: 150, g: 255, b: 150 } };
    let mut panels: Vec<TextPanel> = Vec::new();
    panels.push(title);
    match screen_card(mode) {
        ScreenCard::LiveSoon => {
            let live = if live_soon_flash(frame_index) {
                Rgb { r: 255, g: 240, b: 170 }
            } else {
                Rgb { r: 80, g: 70, b: 30 }
            };
            panels.push(TextPanel {
                area: rows[1],
                text: live_soon_status_line(frame_index),
                color: Rgb { r: 110, g: 255, b: 110 },
            });
            panels.push(TextPanel { area: rows[2], text: String::from_str("LIVE SOON"), color: live });
        },
        ScreenCard::Intermission => {
            panels.push(TextPanel {
                area: rows[1],
                text: intermission_status_line(frame_index),
                color: Rgb { r: 92, g: 180, b: 100 },
            });
            panels.push(TextPanel {
                area: rows[2],
                text: intermission_phrase(frame_index),
                color: Rgb { r: 215, g: 225, b: 180 },
            });
        },
        ScreenCard::Goodbye => {
            panels.push(TextPanel {
                area: rows[2],
                text: shutdown_message(stage),
                color: shutdown_color(stage, flash_on),
            });
        },
    }
    let plan = ScreenPlan { frame_area, inner, rows, panels };
    assert(panel_views(plan.panels@) =~= planned_panels(
        mode,
        plan.rows@,
        frame_index,
        stage,
        flash_on,
    ));
    proof {
        reveal_with_fuel(length_total, 4);
        if lengths_fill(plan.inner, row_heights()) {
            assert(plan.rows@[0].y + 2 == plan.rows@[1].y);
            assert(plan.rows@[1].y + 1 == plan.rows@[2].y);
        }
    }
    plan
}

/// The live-soon card repeats every 16 updates: the spinner every 4, the bar every 8, and
/// the lit and dim halves of "LIVE SOON" every 16, so its panels in given rows are the same
/// 16 updates later.
pub proof fn lemma_live_soon_repeats(frame_index: u64)
    requires
        frame_index + 16 <= u64::MAX,
    ensures
        live_soon_status_chars((frame_index + 16) as u64) == live_soon_status_chars(frame_index),
        live_soon_flash_on((frame_index + 16) as u64) == live_soon_flash_on(frame_index),
        forall|mode: SceneMode, rows: Seq<ScreenRect>, stage: ShutdownStage, flash_on: bool|
            card_of(mode) == ScreenCard::LiveSoon ==> #[trigger] planned_panels(
                mode,
                rows,
                (frame_index + 16) as u64,
                stage,
                flash_on,
            ) == planned_panels(mode, rows, frame_index, stage, flash_on),
{
    let later = (frame_index + 16) as u64;
    assert(later % 4 == frame_index % 4);
    assert(later % 8 == frame_index % 8);
    assert(later / 8 == frame_index / 8 + 2);
    assert(loader_bar_chars(later) =~= loader_bar_chars(frame_index));
}

/// The intermission card repeats with its loop of 96 updates (its panels in given rows are
/// the same 96 updates later), and shows each of its four phrases for one quarter of the
/// loop, 24 updates in a row.
pub proof fn lemma_intermission_repeats(frame_index: u64)
    requires
        frame_index + 96 <= u64::MAX,
    ensures
        intermission_status_chars((frame_index + 96) as u64) == intermission_status_chars(
            frame_index,
        ),
        intermission_phrase_chars((frame_index + 96) as u64) == intermission_phrase_chars(
            frame_index,
        ),
        intermission_phrase_index(frame_index) == (frame_index % 96) / 24,
        0 <= intermission_phrase_index(frame_index) < 4,
        forall|mode: SceneMode, rows: Seq<ScreenRect>, stage: ShutdownStage, flash_on: bool|
            card_of(mode) == ScreenCard::Intermission ==> #[trigger] planned_panels(
                mode,
                rows,
                (frame_index + 96) as u64,
                stage,
                flash_on,
            ) == planned_panels(mode, rows, frame_index, stage, flash_on),
{
    let later = (frame_index + 96) as u64;
    assert(later / 8 == frame_index / 8 + 12);
    assert(later % 96 == frame_index % 96);
    assert((frame_index % 96) * 4 / 96 == (frame_index % 96) / 24);
}

/// Every card shows the title "TERMINAL / COLLECTIVE" in the top row, in the title colour,
/// whatever the mode, update, stage or lighting.
pub proof fn lemma_title_on_every_card(
    mode: SceneMode,
    rows: Seq<ScreenRect>,
    frame_index: u64,
    stage: ShutdownStage,
    flash_on: bool,
)
    ensures
        planned_panels(mode, rows, frame_index, stage, flash_on).len() >= 2,
        planned_panels(mode, rows, frame_index, stage, flash_on)[0] == (
            rows[0],
            "TERMINAL\nCOLLECTIVE"@,
            rgb(150, 255, 150),
        ),
{
}

/// The goodbye card leaves the status row empty and shows in the message row the message of
/// the given stage, one per stage ("THANKS FOR / WATCHING", then "GOODBYE / SEE YOU SOON",
/// then "HAVE A / NICE DAY"), whatever the update; its colour is a different one lit than dim.
pub proof fn lemma_goodbye_card_message(
    mode: SceneMode,
    rows: Seq<ScreenRect>,
    frame_index: u64,
    other_frame_index: u64,
    stage: ShutdownStage,
    other_stage: ShutdownStage,
    flash_on: bool,
)
    requires
        card_of(mode) == ScreenCard::Goodbye,
    ensures
        ({
            let panels = planned_panels(mode, rows, frame_index, stage, flash_on);
            &&& panels.len() == 2
            &&& panels[1].0 == rows[2]
            &&& stage == ShutdownStage::ThanksForWatching ==> panels[1].1 == "THANKS FOR\nWATCHING"@
            &&& stage == ShutdownStage::SeeYouSoon ==> panels[1].1 == "GOODBYE\nSEE YOU SOON"@
            &&& stage == ShutdownStage::HaveANiceDay ==> panels[1].1 == "HAVE A\nNICE DAY"@
            &&& panels == planned_panels(mode, rows, other_frame_index, stage, flash_on)
            &&& stage != other_stage ==> panels[1].1 != planned_panels(
                mode,
                rows,
                frame_index,
                other_stage,
                flash_on,
            )[1].1
            &&& panels[1].2 != planned_panels(mode, rows, frame_index, stage, !flash_on)[1].2
        }),
{
    let a = "THANKS FOR\nWATCHING"@;
    let b = "GOODBYE\nSEE YOU SOON"@;
    let c = "HAVE A\nNICE DAY"@;
    reveal_strlit("THANKS FOR\nWATCHING");
    reveal_strlit("GOODBYE\nSEE YOU SOON");
    reveal_strlit("HAVE A\nNICE DAY");
    assert(a[0] != b[0] && a[0] != c[0] && b[0] != c[0]);
}

/// The live-soon card shows its loading line in the status row and "LIVE SOON" in the message
/// row, lit for eight updates and dim for the next eight; the loading line is ten characters,
/// a spinner at each end and a bar of eight cells between them, all `-` but the one at
/// `frame_index % 8`, which is `#`. The stage and the goodbye lighting play no part.
pub proof fn lemma_live_soon_card(
    mode: SceneMode,
    rows: Seq<ScreenRect>,
    frame_index: u64,
    stage: ShutdownStage,
    other_stage: ShutdownStage,
    flash_on: bool,
    other_flash_on: bool,
)
    requires
        card_of(mode) == ScreenCard::LiveSoon,
    ensures
        ({
            let panels = planned_panels(mode, rows, frame_index, stage, flash_on);
            let line = panels[1].1;
            &&& panels.len() == 3
            &&& panels == planned_panels(mode, rows, frame_index, other_stage, other_flash_on)
            &&& panels[1].0 == rows[1]
            &&& panels[1].2 == rgb(110, 255, 110)
            &&& line.len() == 10
            &&& line[0] == line[9]
            &&& line[1 + (frame_index % 8) as int] == '#'
            &&& forall|k: int| 1 <= k < 9 && k != 1 + (frame_index % 8) as int ==> line[k] == '-'
            &&& panels[2].0 == rows[2]
            &&& panels[2].1 == "LIVE SOON"@
            &&& (frame_index / 8) % 2 == 0 ==> panels[2].2 == rgb(255, 240, 170)
            &&& (frame_index / 8) % 2 == 1 ==> panels[2].2 == rgb(80, 70, 30)
        }),
{
}

/// The intermission card shows its waiting line in the status row and one of four phrases in
/// the message row, each for a quarter of its loop of 96 updates: "RECESS / STANDBY", then
/// "HOLD / PAUSE", then "RECESS / HOLD", then "STANDBY / PAUSE". The stage and the goodbye
/// lighting play no part.
pub proof fn lemma_intermission_card(
    mode: SceneMode,
    rows: Seq<ScreenRect>,
    frame_index: u64,
    stage: ShutdownStage,
    other_stage: ShutdownStage,
    flash_on: bool,
    other_flash_on: bool,
)
    requires
        card_of(mode) == ScreenCard::Intermission,
    ensures
        ({
            let panels = planned_panels(mode, rows, frame_index, stage, flash_on);
            let line = panels[1].1;
            let step = frame_index % 96;
            &&& panels.len() == 3
            &&& panels == planned_panels(mode, rows, frame_index, other_stage, other_flash_on)
            &&& panels[1].0 == rows[1]
            &&& panels[1].2 == rgb(92, 180, 100)
            &&& panels[2].2 == rgb(215, 225, 180)
            &&& line.len() == 19
            &&& line[0] == line[18]
            &&& line.subrange(1, 18) == " WAITING PATTERN "@
            &&& panels[2].0 == rows[2]
            &&& step < 24 ==> panels[2].1 == "RECESS\nSTANDBY"@
            &&& 24 <= step < 48 ==> panels[2].1 == "HOLD\nPAUSE"@
            &&& 48 <= step < 72 ==> panels[2].1 == "RECESS\nHOLD"@
            &&& 72 <= step ==> panels[2].1 == "STANDBY\nPAUSE"@
        }),
{
    reveal_strlit(" WAITING PATTERN ");
    let line = planned_panels(mode, rows, frame_index, stage, flash_on)[1].1;
    assert(line.subrange(1, 18) =~= " WAITING PATTERN "@);
}

/// Which card each scene mode shows, and its margin: the orbit and zoom-in show the live-soon
/// card and the intermission its own card, with one blank column left and right of the
/// border; both goodbye modes show the goodbye card, with the border at the screen's edges.
pub proof fn lemma_cards_and_margins(mode: SceneMode)
    ensures
        mode == SceneMode::Orbit || mode == SceneMode::ZoomIn ==> card_of(mode)
            == ScreenCard::LiveSoon && horizontal_margin_of(mode) == 1,
        mode == SceneMode::Intermission ==> card_of(mode) == ScreenCard::Intermission
            && horizontal_margin_of(mode) == 1,
        mode == SceneMode::ShutdownOutro || mode == SceneMode::ShutdownLoop ==> card_of(mode)
            == ScreenCard::Goodbye && horizontal_margin_of(mode) == 0,
{
}

} // verus!
