use rotating_terminal::layout::ScreenRect;
use rotating_terminal::progress::SceneMode;
use rotating_terminal::screen::{
    border_color, goodbye_flash, intermission_phrase, intermission_status_line, live_soon_flash,
    live_soon_status_line, loader_bar, plan_terminal_screen, screen_card, screen_horizontal_margin,
    shutdown_color, shutdown_message, title_text, Rgb, ScreenCard, ShutdownStage,
    TerminalDemoApp, SCREEN_COLUMNS, SCREEN_ROWS,
};

fn rect(x: u16, y: u16, width: u16, height: u16) -> ScreenRect {
    ScreenRect { x, y, width, height }
}

fn rgb(r: u8, g: u8, b: u8) -> Rgb {
    Rgb { r, g, b }
}

#[test]
fn demo_app_counts_updates() {
    let mut app = TerminalDemoApp::new();
    assert_eq!(app.frame_count, 0);
    app.on_tick();
    app.on_tick();
    assert_eq!(app.frame_count, 2);
    let mut last = TerminalDemoApp { frame_count: u64::MAX };
    last.on_tick();
    assert_eq!(last.frame_count, 0);
}

#[test]
fn cards_and_margins_by_mode() {
    assert_eq!(screen_card(SceneMode::Orbit), ScreenCard::LiveSoon);
    assert_eq!(screen_card(SceneMode::ZoomIn), ScreenCard::LiveSoon);
    assert_eq!(screen_card(SceneMode::Intermission), ScreenCard::Intermission);
    assert_eq!(screen_card(SceneMode::ShutdownOutro), ScreenCard::Goodbye);
    assert_eq!(screen_card(SceneMode::ShutdownLoop), ScreenCard::Goodbye);
    assert_eq!(screen_horizontal_margin(SceneMode::Orbit), 1);
    assert_eq!(screen_horizontal_margin(SceneMode::Intermission), 1);
    assert_eq!(screen_horizontal_margin(SceneMode::ShutdownLoop), 0);
    assert_eq!(border_color(), rgb(70, 120, 70));
}

#[test]
fn title_has_two_lines() {
    assert_eq!(title_text(), "TERMINAL\nCOLLECTIVE");
}

#[test]
fn live_soon_loader_sweeps() {
    assert_eq!(loader_bar(0), "#-------");
    assert_eq!(loader_bar(3), "---#----");
    assert_eq!(loader_bar(15), "-------#");
    assert_eq!(live_soon_status_line(0), "|#-------|");
    assert_eq!(live_soon_status_line(1), "/-#------/");
    assert_eq!(live_soon_status_line(2), "---#------");
    assert_eq!(live_soon_status_line(3), "\\---#----\\");
    for f in 0..50u64 {
        assert_eq!(loader_bar(f).matches('#').count(), 1);
        assert_eq!(live_soon_status_line(f + 16), live_soon_status_line(f));
        assert_eq!(live_soon_flash(f + 16), live_soon_flash(f));
    }
}

#[test]
fn live_soon_flashes_every_eight_updates() {
    assert!(live_soon_flash(0));
    assert!(live_soon_flash(7));
    assert!(!live_soon_flash(8));
    assert!(!live_soon_flash(15));
    assert!(live_soon_flash(16));
}

#[test]
fn intermission_lines() {
    assert_eq!(intermission_status_line(0), ". WAITING PATTERN .");
    assert_eq!(intermission_status_line(8), "o WAITING PATTERN o");
    assert_eq!(intermission_status_line(16), "O WAITING PATTERN O");
    assert_eq!(intermission_status_line(24), "o WAITING PATTERN o");
    assert_eq!(intermission_status_line(32), ". WAITING PATTERN .");
    assert_eq!(intermission_phrase(0), "RECESS\nSTANDBY");
    assert_eq!(intermission_phrase(23), "RECESS\nSTANDBY");
    assert_eq!(intermission_phrase(24), "HOLD\nPAUSE");
    assert_eq!(intermission_phrase(48), "RECESS\nHOLD");
    assert_eq!(intermission_phrase(95), "STANDBY\nPAUSE");
    assert_eq!(intermission_phrase(96), "RECESS\nSTANDBY");
    for f in 0..200u64 {
        assert_eq!(intermission_phrase(f + 96), intermission_phrase(f));
        assert_eq!(intermission_status_line(f + 96), intermission_status_line(f));
    }
}

#[test]
fn goodbye_messages_and_colors() {
    assert_eq!(shutdown_message(ShutdownStage::ThanksForWatching), "THANKS FOR\nWATCHING");
    assert_eq!(shutdown_message(ShutdownStage::SeeYouSoon), "GOODBYE\nSEE YOU SOON");
    assert_eq!(shutdown_message(ShutdownStage::HaveANiceDay), "HAVE A\nNICE DAY");
    assert_eq!(shutdown_color(ShutdownStage::ThanksForWatching, true), rgb(215, 225, 180));
    assert_eq!(shutdown_color(ShutdownStage::ThanksForWatching, false), rgb(110, 118, 94));
    assert_eq!(shutdown_color(ShutdownStage::SeeYouSoon, true), rgb(108, 205, 108));
    assert_eq!(shutdown_color(ShutdownStage::SeeYouSoon, false), rgb(52, 98, 52));
    assert_eq!(shutdown_color(ShutdownStage::HaveANiceDay, true), rgb(82, 145, 82));
    assert_eq!(shutdown_color(ShutdownStage::HaveANiceDay, false), rgb(36, 64, 36));
    assert!(goodbye_flash(0));
    assert!(!goodbye_flash(3));
}

#[test]
fn live_soon_screen_plan() {
    let area = rect(0, 0, SCREEN_COLUMNS, SCREEN_ROWS);
    let plan = plan_terminal_screen(SceneMode::Orbit, area, 9, ShutdownStage::ThanksForWatching, true);
    assert_eq!(plan.frame_area, rect(1, 0, 12, 7));
    assert_eq!(plan.inner, rect(2, 1, 10, 5));
    assert_eq!(plan.panels.len(), 3);
    assert_eq!(plan.panels[0].area, rect(2, 1, 10, 2));
    assert_eq!(plan.panels[0].text, "TERMINAL\nCOLLECTIVE");
    assert_eq!(plan.panels[0].color, rgb(150, 255, 150));
    assert_eq!(plan.panels[1].area, rect(2, 3, 10, 1));
    assert_eq!(plan.panels[1].text, "/-#------/");
    assert_eq!(plan.panels[1].color, rgb(110, 255, 110));
    assert_eq!(plan.panels[2].area, rect(2, 4, 10, 2));
    assert_eq!(plan.panels[2].text, "LIVE SOON");
    assert_eq!(plan.panels[2].color, rgb(80, 70, 30));
}

#[test]
fn intermission_screen_plan() {
    let area = rect(0, 0, SCREEN_COLUMNS, SCREEN_ROWS);
    let plan =
        plan_terminal_screen(SceneMode::Intermission, area, 30, ShutdownStage::SeeYouSoon, false);
    assert_eq!(plan.panels.len(), 3);
    assert_eq!(plan.panels[1].text, "o WAITING PATTERN o");
    assert_eq!(plan.panels[1].color, rgb(92, 180, 100));
    assert_eq!(plan.panels[2].text, "HOLD\nPAUSE");
    assert_eq!(plan.panels[2].color, rgb(215, 225, 180));
}

#[test]
fn goodbye_screen_plan_has_no_margin() {
    let area = rect(0, 0, SCREEN_COLUMNS, SCREEN_ROWS);
    let plan =
        plan_terminal_screen(SceneMode::ShutdownOutro, area, 0, ShutdownStage::HaveANiceDay, true);
    assert_eq!(plan.frame_area, rect(0, 0, 14, 7));
    assert_eq!(plan.inner, rect(1, 1, 12, 5));
    assert_eq!(plan.panels.len(), 2);
    assert_eq!(plan.panels[0].area, rect(1, 1, 12, 2));
    assert_eq!(plan.panels[1].area, rect(1, 4, 12, 2));
    assert_eq!(plan.panels[1].text, "HAVE A\nNICE DAY");
    assert_eq!(plan.panels[1].color, rgb(82, 145, 82));
}

#[test]
fn screen_plan_on_tiny_area() {
    let plan = plan_terminal_screen(SceneMode::ZoomIn, rect(3, 3, 1, 1), 0, ShutdownStage::SeeYouSoon, true);
    // the margins do not fit: ratatui gives the empty rectangle at the origin
    assert_eq!(plan.frame_area, rect(0, 0, 0, 0));
    assert_eq!(plan.inner, rect(0, 0, 0, 0));
    assert_eq!(plan.panels.len(), 3);
}
