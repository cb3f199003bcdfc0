use rotating_terminal::export::{
    drive_export_capture, export_job_settings, ExportAction, ExportCaptureState, ExportJob,
    ExportRotationConfig, EXPORT_WARMUP_FRAMES,
};
use rotating_terminal::progress::{Progress, SceneMode};

#[test]
fn export_settings_match_the_readme() {
    let (mode, rotation) = export_job_settings(ExportJob::Rotation);
    assert_eq!(mode, SceneMode::Orbit);
    assert_eq!((rotation.frames, rotation.width, rotation.height), (420, 1920, 1920));
    let (mode, zoom) = export_job_settings(ExportJob::Zoom);
    assert_eq!(mode, SceneMode::ZoomIn);
    assert_eq!((zoom.frames, zoom.width, zoom.height), (1680, 1920, 1920));
    let (mode, intermission) = export_job_settings(ExportJob::Intermission);
    assert_eq!(mode, SceneMode::Intermission);
    assert_eq!((intermission.frames, intermission.width, intermission.height), (384, 1920, 1080));
    let (mode, shutdown) = export_job_settings(ExportJob::Shutdown);
    assert_eq!(mode, SceneMode::ShutdownLoop);
    assert_eq!((shutdown.frames, shutdown.width, shutdown.height), (960, 1920, 1080));
    assert_eq!(rotation.warmup_frames, EXPORT_WARMUP_FRAMES);
    assert_eq!(EXPORT_WARMUP_FRAMES, 60);
}

#[test]
fn export_warms_up_captures_in_order_then_finishes() {
    let config = ExportRotationConfig { frames: 3, width: 8, height: 8, warmup_frames: 2 };
    let mut state = ExportCaptureState::new(&config);
    assert_eq!(drive_export_capture(&mut state, SceneMode::Orbit, &config), ExportAction::WarmUp);
    assert_eq!(drive_export_capture(&mut state, SceneMode::Orbit, &config), ExportAction::WarmUp);
    for frame in 0..3u32 {
        let action = drive_export_capture(&mut state, SceneMode::Orbit, &config);
        assert_eq!(
            action,
            ExportAction::Capture {
                start_exporter: frame == 0,
                frame,
                progress: Progress { numerator: frame as u64, denominator: 3 },
            }
        );
    }
    for _ in 0..3 {
        assert_eq!(
            drive_export_capture(&mut state, SceneMode::Orbit, &config),
            ExportAction::Finish { start_exporter: false }
        );
    }
    assert_eq!(
        state,
        ExportCaptureState { exporter_started: true, warmup_frames_remaining: 0, current_frame: 3 }
    );
}

#[test]
fn export_without_frames_starts_exporter_and_finishes() {
    let config = ExportRotationConfig { frames: 0, width: 8, height: 8, warmup_frames: 0 };
    let mut state = ExportCaptureState::new(&config);
    assert_eq!(
        drive_export_capture(&mut state, SceneMode::ZoomIn, &config),
        ExportAction::Finish { start_exporter: true }
    );
    assert_eq!(
        drive_export_capture(&mut state, SceneMode::ZoomIn, &config),
        ExportAction::Finish { start_exporter: false }
    );
}

#[test]
fn zoom_export_camera_positions() {
    let config = ExportRotationConfig { frames: 4, width: 8, height: 8, warmup_frames: 0 };
    let mut state = ExportCaptureState::new(&config);
    let mut seen = Vec::new();
    for _ in 0..4 {
        if let ExportAction::Capture { progress, .. } =
            drive_export_capture(&mut state, SceneMode::ZoomIn, &config)
        {
            seen.push((progress.numerator, progress.denominator));
        }
    }
    assert_eq!(seen, vec![(0, 4), (2, 4), (4, 4), (2, 4)]);
}
