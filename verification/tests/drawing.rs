use ratatui::backend::TestBackend;
use ratatui::Terminal;
use ratatui::style::Color;
use rotating_terminal::progress::SceneMode;
use rotating_terminal::screen::ShutdownStage;
use rotating_terminal::terminal::draw_terminal_screen;

fn draw(mode: SceneMode, frame_index: u64, stage: ShutdownStage, flash_on: bool) -> Vec<String> {
    let mut terminal = Terminal::new(TestBackend::new(14, 7)).unwrap();
    terminal
        .draw(|frame| {
            draw_terminal_screen(frame, mode, frame_index, stage, flash_on);
        })
        .unwrap();
    let buffer = terminal.backend().buffer().clone();
    (0..7u16)
        .map(|y| (0..14u16).map(|x| buffer[(x, y)].symbol().to_string()).collect())
        .collect()
}

#[test]
fn draws_live_soon_card() {
    let rows = draw(SceneMode::Orbit, 0, ShutdownStage::ThanksForWatching, true);
    assert_eq!(rows[0], " ┌──────────┐ ");
    assert_eq!(rows[1], " │ TERMINAL │ ");
    assert_eq!(rows[2], " │COLLECTIVE│ ");
    assert_eq!(rows[3], " │|#-------|│ ");
    assert_eq!(rows[4], " │ LIVE SOON│ ");
    assert_eq!(rows[6], " └──────────┘ ");
}

#[test]
fn draws_goodbye_card_without_margin() {
    let rows = draw(SceneMode::ShutdownLoop, 0, ShutdownStage::SeeYouSoon, false);
    assert_eq!(rows[0], "┌────────────┐");
    assert_eq!(rows[4], "│   GOODBYE  │");
    assert_eq!(rows[5], "│SEE YOU SOON│");
    assert_eq!(rows[3], "│            │");
}

#[test]
fn draws_colours_of_live_soon_card() {
    let mut terminal = Terminal::new(TestBackend::new(14, 7)).unwrap();
    let mut planned = None;
    terminal
        .draw(|frame| {
            planned = Some(draw_terminal_screen(
                frame,
                SceneMode::Orbit,
                0,
                ShutdownStage::ThanksForWatching,
                true,
            ));
        })
        .unwrap();
    let plan = planned.unwrap();
    assert_eq!(plan.panels.len(), 3);
    assert_eq!(plan.frame_area.x, 1);
    assert_eq!(plan.frame_area.width, 12);
    let buffer = terminal.backend().buffer().clone();
    for y in 0..7u16 {
        for x in 0..14u16 {
            assert_eq!(buffer[(x, y)].bg, Color::Black);
        }
    }
    let border = Color::Rgb(70, 120, 70);
    assert_eq!(buffer[(1, 0)].fg, border);
    assert_eq!(buffer[(12, 6)].fg, border);
    assert_eq!(buffer[(1, 3)].fg, border);
    assert_eq!(buffer[(0, 3)].fg, Color::Reset);
    // title rows, loader row and "LIVE SOON" row, each in its panel's colour
    assert_eq!(buffer[(2, 1)].fg, Color::Rgb(150, 255, 150));
    assert_eq!(buffer[(2, 3)].fg, Color::Rgb(110, 255, 110));
    assert_eq!(buffer[(6, 4)].fg, Color::Rgb(255, 240, 170));
    assert_eq!(buffer[(6, 5)].fg, Color::Rgb(255, 240, 170));
}

#[test]
fn draws_dim_goodbye_message() {
    let mut terminal = Terminal::new(TestBackend::new(14, 7)).unwrap();
    terminal
        .draw(|frame| {
            draw_terminal_screen(frame, SceneMode::ShutdownOutro, 0, ShutdownStage::HaveANiceDay, false);
        })
        .unwrap();
    let buffer = terminal.backend().buffer().clone();
    assert_eq!(buffer[(0, 0)].fg, Color::Rgb(70, 120, 70));
    assert_eq!(buffer[(6, 4)].fg, Color::Rgb(36, 64, 36));
    assert_eq!(buffer[(6, 4)].bg, Color::Black);
}

fn drawn_buffer(mode: SceneMode, frame_index: u64, stage: ShutdownStage, flash_on: bool) -> ratatui::buffer::Buffer {
    let mut terminal = Terminal::new(TestBackend::new(14, 7)).unwrap();
    terminal
        .draw(|frame| {
            draw_terminal_screen(frame, mode, frame_index, stage, flash_on);
        })
        .unwrap();
    terminal.backend().buffer().clone()
}

#[test]
fn modes_with_the_same_card_draw_alike() {
    for frame_index in [0u64, 5, 37] {
        assert_eq!(
            drawn_buffer(SceneMode::Orbit, frame_index, ShutdownStage::SeeYouSoon, true),
            drawn_buffer(SceneMode::ZoomIn, frame_index, ShutdownStage::SeeYouSoon, true)
        );
        assert_eq!(
            drawn_buffer(SceneMode::ShutdownOutro, frame_index, ShutdownStage::SeeYouSoon, true),
            drawn_buffer(SceneMode::ShutdownLoop, frame_index, ShutdownStage::SeeYouSoon, true)
        );
    }
}

#[test]
fn drawn_cards_repeat() {
    for frame_index in [0u64, 3, 11, 50] {
        let stage = ShutdownStage::ThanksForWatching;
        assert_eq!(
            drawn_buffer(SceneMode::Orbit, frame_index, stage, false),
            drawn_buffer(SceneMode::Orbit, frame_index + 16, stage, false)
        );
        assert_eq!(
            drawn_buffer(SceneMode::Intermission, frame_index, stage, false),
            drawn_buffer(SceneMode::Intermission, frame_index + 96, stage, false)
        );
    }
    assert_ne!(
        drawn_buffer(SceneMode::Intermission, 0, ShutdownStage::ThanksForWatching, false),
        drawn_buffer(SceneMode::Intermission, 24, ShutdownStage::ThanksForWatching, false)
    );
}
