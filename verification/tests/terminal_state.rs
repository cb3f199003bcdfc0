use rotating_terminal::progress::SceneMode;
use rotating_terminal::terminal::TerminalScreenState;

#[test]
fn atlas_template_needs_only_the_screen_rectangle() {
    // the last pixel of the screen's rectangle is at column 166, row 695
    let needed = (695 * 200 + 166) * 4 + 4;
    assert!(TerminalScreenState::new(SceneMode::Orbit, vec![0u8; needed], 200, 700).is_some());
    assert!(TerminalScreenState::new(SceneMode::Orbit, vec![0u8; needed - 1], 200, 700).is_none());
    // an atlas that the rectangle misses needs no bytes at all
    assert!(TerminalScreenState::new(SceneMode::Orbit, Vec::new(), 5, 5).is_some());
}

#[test]
fn new_screen_state_starts_at_frame_zero() {
    let mut state = TerminalScreenState::new(SceneMode::Intermission, vec![0u8; 4], 1, 1).unwrap();
    assert_eq!(state.frame_count(), 0);
    state.on_tick();
    assert_eq!(state.frame_count(), 1);
    assert_eq!(state.scene_mode(), SceneMode::Intermission);
    assert_eq!(state.atlas_size(), (1, 1));
}

#[test]
fn wide_pixmap_goes_on_the_atlas() {
    let needed = (695 * 200 + 166) * 4 + 4;
    let state = TerminalScreenState::new(SceneMode::Orbit, vec![7u8; needed], 200, 700).unwrap();
    let rgba = vec![9u8; 70000 * 4];
    let atlas = state.atlas_with_pixmap(70000, 1, &rgba).unwrap();
    assert_eq!(atlas.len(), needed);
    assert_eq!(atlas[((463 * 200 + 10) * 4) as usize], 9);
    assert_eq!(atlas[0], 7);
    assert!(state.atlas_with_pixmap(0, 1, &rgba).is_none());
    assert!(state.atlas_with_pixmap(70000, 2, &rgba).is_none());
}

// A 2 by 1 RGBA8 PNG: pixels (10, 20, 30, 255) and (40, 50, 60, 128).
const TWO_PIXEL_PNG: [u8; 74] = [
    137, 80, 78, 71, 13, 10, 26, 10, 0, 0, 0, 13, 73, 72, 68, 82, 0, 0, 0, 2, 0, 0, 0, 1, 8, 6,
    0, 0, 0, 244, 34, 127, 138, 0, 0, 0, 17, 73, 68, 65, 84, 120, 156, 99, 224, 18, 145, 251,
    175, 97, 100, 211, 0, 0, 8, 194, 2, 82, 6, 203, 102, 190, 0, 0, 0, 0, 73, 69, 78, 68, 174,
    66, 96, 130,
];

#[test]
fn screen_state_from_png_holds_its_pixels() {
    let state = TerminalScreenState::from_png(SceneMode::ZoomIn, &TWO_PIXEL_PNG).unwrap();
    assert_eq!(state.atlas_size(), (2, 1));
    assert_eq!(state.scene_mode(), SceneMode::ZoomIn);
    assert_eq!(state.frame_count(), 0);
    // the screen's rectangle misses so small an atlas: the template comes back as decoded
    let atlas = state.atlas_with_pixmap(1, 1, &[0, 0, 0, 0]).unwrap();
    assert_eq!(atlas, vec![10, 20, 30, 255, 40, 50, 60, 128]);
}

#[test]
fn screen_state_from_bytes_that_are_no_png() {
    assert!(TerminalScreenState::from_png(SceneMode::Orbit, &[1, 2, 3, 4]).is_none());
    assert!(TerminalScreenState::from_png(SceneMode::Orbit, &TWO_PIXEL_PNG[..40]).is_none());
}
