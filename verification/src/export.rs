//! The capture schedule of an image-sequence export: warm-up frames, then one captured frame
//! per camera position, then the end of the export.

use vstd::prelude::*;
use crate::progress::{Progress, SceneMode, export_progress, export_frame_progress, fraction};
use crate::screen::{INTERMISSION_LOOP_UPDATES, TUI_UPDATE_FPS};

verus! {

/// Frames rendered before capture starts, so that assets and pipelines are ready.
pub const EXPORT_WARMUP_FRAMES: u32 = 60;

/// Frame rate of exported image sequences.
pub const EXPORT_FPS: u32 = 60;

/// What an export captures: how many frames, at which resolution, after how many warm-up
/// frames.
#[derive(Clone, Copy, Debug, PartialEq, Eq, Structural)]
pub struct ExportRotationConfig {
    pub frames: u32,
    pub width: u32,
    pub height: u32,
    pub warmup_frames: u32,
}

/// The exports the project offers.
#[derive(Clone, Copy, Debug, PartialEq, Eq, Structural)]
pub enum ExportJob {
    /// One full orbit of the camera.
    Rotation,
    /// One scripted zoom-in pass.
    Zoom,
    /// One loop of the intermission card.
    Intermission,
    /// One loop of the goodbye card.
    Shutdown,
}

/// Scene mode and capture settings of each export.
pub open spec fn job_settings(job: ExportJob) -> (SceneMode, ExportRotationConfig) {
    match job {
        ExportJob::Rotation => (
            SceneMode::Orbit,
            ExportRotationConfig { frames: 420, width: 1920, height: 1920, warmup_frames: 60 },
        ),
        ExportJob::Zoom => (
            SceneMode::ZoomIn,
            ExportRotationConfig { frames: 1680, width: 1920, height: 1920, warmup_frames: 60 },
        ),
        ExportJob::Intermission => (
            SceneMode::Intermission,
            ExportRotationConfig { frames: 384, width: 1920, height: 1080, warmup_frames: 60 },
        ),
        ExportJob::Shutdown => (
            SceneMode::ShutdownLoop,
            ExportRotationConfig { frames: 960, width: 1920, height: 1080, warmup_frames: 60 },
        ),
    }
}

/// Scene mode and capture settings of an export.
pub fn export_job_settings(job: ExportJob) -> (settings: (SceneMode, ExportRotationConfig))
    ensures
        settings == job_settings(job),
        settings.1.warmup_frames == EXPORT_WARMUP_FRAMES,
{
    match job {
        ExportJob::Rotation => (
            SceneMode::Orbit,
            ExportRotationConfig {
                frames: 420,
                width: 1920,
                height: 1920,
                warmup_frames: EXPORT_WARMUP_FRAMES,
            },
        ),
        ExportJob::Zoom => (
            SceneMode::ZoomIn,
            ExportRotationConfig {
                frames: 1680,
                width: 1920,
                height: 1920,
                warmup_frames: EXPORT_WARMUP_FRAMES,
            },
        ),
        ExportJob::Intermission => (
            SceneMode::Intermission,
            ExportRotationConfig {
                frames: 384,
                width: 1920,
                height: 1080,
                warmup_frames: EXPORT_WARMUP_FRAMES,
            },
        ),
        ExportJob::Shutdown => (
            SceneMode::ShutdownLoop,
            ExportRotationConfig {
                frames: 960,
                width: 1920,
                height: 1080,
                warmup_frames: EXPORT_WARMUP_FRAMES,
            },
        ),
    }
}

/// Where an export stands.
#[derive(Clone, Copy, Debug, PartialEq, Eq, Structural)]
pub struct ExportCaptureState {
    pub exporter_started: bool,
    pub warmup_frames_remaining: u32,
    pub current_frame: u32,
}

/// What to do on one frame of an export.
#[derive(Clone, Copy, Debug, PartialEq, Eq, Structural)]
pub enum ExportAction {
    /// Still warming up: capture nothing.
    WarmUp,
    /// Place the capture camera at `progress` for frame `frame`; start the exporter first when
    /// `start_exporter` holds.
    Capture { start_exporter: bool, frame: u32, progress: Progress },
    /// Every frame was captured: end the export; start the exporter first when
    /// `start_exporter` holds.
    Finish { start_exporter: bool },
}

/// The state an export starts in.
pub open spec fn initial_capture_state(config: ExportRotationConfig) -> ExportCaptureState {
    ExportCaptureState {
        exporter_started: false,
        warmup_frames_remaining: config.warmup_frames,
        current_frame: 0,
    }
}

/// One frame of an export: the next state and what to do.
pub open spec fn capture_step(
    state: ExportCaptureState,
    mode: SceneMode,
    config: ExportRotationConfig,
) -> (ExportCaptureState, ExportAction) {
    if state.warmup_frames_remaining > 0 {
        (
            ExportCaptureState {
                warmup_frames_remaining: (state.warmup_frames_remaining - 1) as u32,
                ..state
            },
            ExportAction::WarmUp,
        )
    } else if state.current_frame >= config.frames {
        (
            ExportCaptureState { exporter_started: true, ..state },
            ExportAction::Finish { start_exporter: !state.exporter_started },
        )
    } else {
        let p = export_frame_progress(mode, state.current_frame as int, config.frames as int);
        (
            ExportCaptureState {
                exporter_started: true,
                current_frame: (state.current_frame + 1) as u32,
                ..state
            },
            ExportAction::Capture {
                start_exporter: !state.exporter_started,
                frame: state.current_frame,
                progress: Progress { numerator: p.0 as u64, denominator: p.1 as u64 },
            },
        )
    }
}

impl ExportCaptureState {
    /// The state an export starts in.
    pub fn new(config: &ExportRotationConfig) -> (state: Self)
        ensures
            state == initial_capture_state(*config),
    {
        ExportCaptureState {
            exporter_started: false,
            warmup_frames_remaining: config.warmup_frames,
            current_frame: 0,
        }
    }
}

/// Decides one frame of an export: counts down the warm-up, starts the exporter once, places
/// the camera for each frame in turn, and ends the export after the last frame.
pub fn drive_export_capture(
    state: &mut ExportCaptureState,
    mode: SceneMode,
    config: &ExportRotationConfig,
) -> (action: ExportAction)
    ensures
        (*final(state), action) == capture_step(*old(state), mode, *config),
{
    if state.warmup_frames_remaining > 0 {
        state.warmup_frames_remaining = state.warmup_frames_remaining - 1;
        return ExportAction::WarmUp;
    }
    let start_exporter = !state.exporter_started;
    state.exporter_started = true;
    if state.current_frame >= config.frames {
        return ExportAction::Finish { start_exporter };
    }
    let frame = state.current_frame;
    let progress = export_progress(mode, frame, config.frames);
    state.current_frame = frame + 1;
    ExportAction::Capture { start_exporter, frame, progress }
}

/// The state of an export after `n` frames.
pub open spec fn capture_state_after(config: ExportRotationConfig, n: nat) -> ExportCaptureState {
    let warmup = config.warmup_frames as nat;
    if n <= warmup {
        ExportCaptureState {
            exporter_started: false,
            warmup_frames_remaining: (warmup - n) as u32,
            current_frame: 0,
        }
    } else {
        let captured = (n - warmup) as nat;
        ExportCaptureState {
            exporter_started: true,
            warmup_frames_remaining: 0,
            current_frame: if captured < config.frames { captured as u32 } else { config.frames },
        }
    }
}

/// What an export does on frame `n`: warm up for the configured number of frames, then
/// capture frames `0, 1, ...` in order, starting the exporter with the first of them, then
/// finish.
pub open spec fn scheduled_action(mode: SceneMode, config: ExportRotationConfig, n: nat) -> ExportAction {
    let warmup = config.warmup_frames as nat;
    if n < warmup {
        ExportAction::WarmUp
    } else if n - warmup < config.frames {
        let frame = (n - warmup) as int;
        let p = export_frame_progress(mode, frame, config.frames as int);
        ExportAction::Capture {
            start_exporter: n == warmup,
            frame: frame as u32,
            progress: Progress { numerator: p.0 as u64, denominator: p.1 as u64 },
        }
    } else {
        ExportAction::Finish { start_exporter: n == warmup }
    }
}

/// An export runs on schedule: it starts in the state it has after no frames, and each frame
/// takes it from its state after `n` frames to its state after `n + 1` frames, doing what the
/// schedule says for frame `n`.
pub proof fn lemma_export_follows_schedule(mode: SceneMode, config: ExportRotationConfig, n: nat)
    ensures
        capture_state_after(config, 0) == initial_capture_state(config),
        capture_step(capture_state_after(config, n), mode, config) == (
            capture_state_after(config, n + 1),
            scheduled_action(mode, config, n),
        ),
{
}

/// Every export warms up for `EXPORT_WARMUP_FRAMES` frames before it captures, and captures
/// at least one frame.
pub proof fn lemma_every_export_warms_up(job: ExportJob)
    ensures
        job_settings(job).1.warmup_frames == EXPORT_WARMUP_FRAMES,
        job_settings(job).1.frames > 0,
{
}

/// Each export films the scene mode it is named for: the rotation the orbit, the zoom the
/// zoom-in, the intermission its card, and the shutdown the looping goodbye; no two exports
/// film the same mode.
pub proof fn lemma_export_modes(job: ExportJob, other: ExportJob)
    ensures
        job == ExportJob::Rotation ==> job_settings(job).0 == SceneMode::Orbit,
        job == ExportJob::Zoom ==> job_settings(job).0 == SceneMode::ZoomIn,
        job == ExportJob::Intermission ==> job_settings(job).0 == SceneMode::Intermission,
        job == ExportJob::Shutdown ==> job_settings(job).0 == SceneMode::ShutdownLoop,
        job != other ==> job_settings(job).0 != job_settings(other).0,
{
}

/// Every export is 1920 pixels wide; the rotation and zoom exports are square, the
/// intermission and shutdown exports are 16:9.
pub proof fn lemma_export_resolutions(job: ExportJob)
    ensures
        job_settings(job).1.width == 1920,
        job == ExportJob::Rotation || job == ExportJob::Zoom ==> job_settings(job).1.height
            == job_settings(job).1.width,
        job == ExportJob::Intermission || job == ExportJob::Shutdown ==> 16 * job_settings(
            job,
        ).1.height == 9 * job_settings(job).1.width,
{
}

/// The length of each export at `EXPORT_FPS`: the rotation lasts 7 s and the zoom 28 s; the
/// intermission export lasts exactly one loop of the intermission card (its
/// `INTERMISSION_LOOP_UPDATES` updates at `TUI_UPDATE_FPS`), and the shutdown export runs the
/// 8 s goodbye out and back.
pub proof fn lemma_export_lengths()
    ensures
        job_settings(ExportJob::Rotation).1.frames == 7 * EXPORT_FPS,
        job_settings(ExportJob::Zoom).1.frames == 28 * EXPORT_FPS,
        job_settings(ExportJob::Intermission).1.frames * TUI_UPDATE_FPS == INTERMISSION_LOOP_UPDATES
            * EXPORT_FPS,
        job_settings(ExportJob::Shutdown).1.frames == 2 * 8 * EXPORT_FPS,
{
}

} // verus!
