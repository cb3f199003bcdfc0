use rotating_terminal::progress::{
    cyclic_export_progress, export_progress, ping_pong_progress, zoom_export_progress, Progress,
    SceneMode,
};

fn p(numerator: u64, denominator: u64) -> Progress {
    Progress { numerator, denominator }
}

#[test]
fn ping_pong_folds_into_unit_interval() {
    assert_eq!(ping_pong_progress(p(1, 4)), p(1, 4));
    assert_eq!(ping_pong_progress(p(4, 4)), p(4, 4));
    assert_eq!(ping_pong_progress(p(5, 4)), p(3, 4));
    assert_eq!(ping_pong_progress(p(8, 4)), p(0, 4));
    assert_eq!(ping_pong_progress(p(9, 4)), p(1, 4));
    assert_eq!(ping_pong_progress(p(15, 4)), p(1, 4));
}

#[test]
fn ping_pong_repeats_every_two() {
    for n in 0..20u64 {
        assert_eq!(ping_pong_progress(p(n + 10, 5)), ping_pong_progress(p(n, 5)));
    }
}

#[test]
fn cyclic_progress_is_frame_over_total() {
    assert_eq!(cyclic_export_progress(0, 420), p(0, 420));
    assert_eq!(cyclic_export_progress(210, 420), p(210, 420));
    assert_eq!(cyclic_export_progress(419, 420), p(419, 420));
    assert_eq!(cyclic_export_progress(3, 0), p(0, 1));
}

#[test]
fn zoom_progress_runs_in_and_back() {
    assert_eq!(zoom_export_progress(0, 10), p(0, 10));
    assert_eq!(zoom_export_progress(3, 10), p(6, 10));
    assert_eq!(zoom_export_progress(5, 10), p(10, 10));
    assert_eq!(zoom_export_progress(7, 10), p(6, 10));
    assert_eq!(zoom_export_progress(9, 10), p(2, 10));
    assert_eq!(zoom_export_progress(4, 0), p(0, 1));
    for f in 0..=10u32 {
        assert_eq!(zoom_export_progress(f, 10), zoom_export_progress(10 - f, 10));
    }
}

#[test]
fn export_progress_by_mode() {
    assert_eq!(export_progress(SceneMode::Orbit, 7, 420), p(7, 420));
    assert_eq!(export_progress(SceneMode::Intermission, 7, 384), p(7, 384));
    assert_eq!(export_progress(SceneMode::ZoomIn, 1000, 1680), p(1360, 1680));
    assert_eq!(export_progress(SceneMode::ShutdownLoop, 600, 960), p(720, 960));
    assert_eq!(export_progress(SceneMode::ShutdownOutro, 3, 7), p(3, 6));
    assert_eq!(export_progress(SceneMode::ShutdownOutro, 0, 1), p(1, 1));
}
