//! Camera progress of each frame of an image-sequence export, as exact fractions.

use vstd::prelude::*;

verus! {

/// The scripted camera moves and screen contents of the scene.
#[derive(Clone, Copy, Debug, PartialEq, Eq, Structural)]
pub enum SceneMode {
    /// The camera orbits the terminals.
    Orbit,
    /// The camera zooms toward the screen and back.
    ZoomIn,
    /// The camera drifts while the screen shows an intermission card.
    Intermission,
    /// The camera pulls away once while the screen says goodbye.
    ShutdownOutro,
    /// The camera pulls away and back while the screen says goodbye.
    ShutdownLoop,
}

/// A camera progress `numerator / denominator`, with a positive denominator.
#[derive(Clone, Copy, Debug, PartialEq, Eq, Structural)]
pub struct Progress {
    pub numerator: u64,
    pub denominator: u64,
}

/// `numerator / denominator` folded back and forth into `[0, 1]`: values in `[0, 1]` stay,
/// values in `[1, 2]` run back from 1 to 0, and the pattern repeats every 2.
pub open spec fn ping_pong(numerator: int, denominator: int) -> (int, int) {
    let wrapped = numerator % (2 * denominator);
    if wrapped <= denominator {
        (wrapped, denominator)
    } else {
        (2 * denominator - wrapped, denominator)
    }
}

/// The fraction a progress stands for, as a numerator and denominator.
pub open spec fn fraction(p: Progress) -> (int, int) {
    (p.numerator as int, p.denominator as int)
}

/// Folds a progress back and forth into `[0, 1]` (see `ping_pong`).
pub fn ping_pong_progress(progress: Progress) -> (folded: Progress)
    requires
        progress.denominator > 0,
        2 * progress.denominator <= u64::MAX,
    ensures
        fraction(folded) == ping_pong(progress.numerator as int, progress.denominator as int),
{
    let period: u64 = 2 * progress.denominator;
    let wrapped: u64 = progress.numerator % period;
    if wrapped <= progress.denominator {
        Progress { numerator: wrapped, denominator: progress.denominator }
    } else {
        Progress { numerator: period - wrapped, denominator: progress.denominator }
    }
}

/// Progress of frame `frame_index` of an export that runs once through `[0, 1)`: the frame
/// index over the frame count, or 0 when there are no frames.
pub fn cyclic_export_progress(frame_index: u32, total_frames: u32) -> (progress: Progress)
    ensures
        progress.denominator > 0,
        total_frames == 0 ==> fraction(progress) == (0int, 1int),
        total_frames > 0 ==> fraction(progress) == (frame_index as int, total_frames as int),
{
    if total_frames == 0 {
        Progress { numerator: 0, denominator: 1 }
    } else {
        Progress { numerator: frame_index as u64, denominator: total_frames as u64 }
    }
}

/// Progress of frame `frame_index` of an export that runs from 0 to 1 and back over
/// `total_frames` frames, or 0 when there are no frames.
pub fn zoom_export_progress(frame_index: u32, total_frames: u32) -> (progress: Progress)
    ensures
        progress.denominator > 0,
        total_frames == 0 ==> fraction(progress) == (0int, 1int),
        total_frames > 0 ==> fraction(progress) == ping_pong(
            2 * frame_index,
            total_frames as int,
        ),
{
    if total_frames == 0 {
        return Progress { numerator: 0, denominator: 1 };
    }
    ping_pong_progress(
        Progress { numerator: 2 * (frame_index as u64), denominator: total_frames as u64 },
    )
}

/// The camera progress that export frame `frame_index` of `total_frames` shows in `mode`.
pub open spec fn export_frame_progress(mode: SceneMode, frame_index: int, total_frames: int) -> (
    int,
    int,
) {
    match mode {
        SceneMode::Orbit | SceneMode::Intermission => (frame_index, total_frames),
        SceneMode::ZoomIn | SceneMode::ShutdownLoop => ping_pong(2 * frame_index, total_frames),
        SceneMode::ShutdownOutro => if total_frames <= 1 {
            (1, 1)
        } else {
            (frame_index, total_frames - 1)
        },
    }
}

/// Camera progress of export frame `frame_index` of `total_frames` in `mode`.
pub fn export_progress(mode: SceneMode, frame_index: u32, total_frames: u32) -> (progress:
    Progress)
    requires
        frame_index < total_frames,
    ensures
        progress.denominator > 0,
        progress.numerator <= progress.denominator,
        fraction(progress) == export_frame_progress(mode, frame_index as int, total_frames as int),
{
    proof {
        lemma_export_progress_in_unit(mode, frame_index as nat, total_frames as nat);
    }
    match mode {
        SceneMode::Orbit | SceneMode::Intermission => cyclic_export_progress(
            frame_index,
            total_frames,
        ),
        SceneMode::ZoomIn => zoom_export_progress(frame_index, total_frames),
        SceneMode::ShutdownLoop => ping_pong_progress(
            Progress { numerator: 2 * (frame_index as u64), denominator: total_frames as u64 },
        ),
        SceneMode::ShutdownOutro => {
            if total_frames <= 1 {
                Progress { numerator: 1, denominator: 1 }
            } else {
                Progress { numerator: frame_index as u64, denominator: (total_frames - 1) as u64 }
            }
        },
    }
}

/// A folded progress lies in `[0, 1]` and keeps its denominator.
pub proof fn lemma_ping_pong_in_unit(numerator: int, denominator: int)
    requires
        0 <= numerator,
        0 < denominator,
    ensures
        0 <= ping_pong(numerator, denominator).0 <= ping_pong(numerator, denominator).1,
        ping_pong(numerator, denominator).1 == denominator,
{
}

/// Folding repeats every 2: `x` and `x + 2` fold to the same progress.
pub proof fn lemma_ping_pong_periodic(numerator: int, denominator: int)
    requires
        0 < denominator,
    ensures
        ping_pong(numerator + 2 * denominator, denominator) == ping_pong(numerator, denominator),
{
    vstd::arithmetic::div_mod::lemma_mod_add_multiples_vanish(numerator, 2 * denominator);
}

/// Folding is symmetric about 1: `x` and `2 - x` fold to the same progress.
pub proof fn lemma_ping_pong_mirror(numerator: int, denominator: int)
    requires
        0 < denominator,
        0 <= numerator <= 2 * denominator,
    ensures
        ping_pong(2 * denominator - numerator, denominator) == ping_pong(numerator, denominator),
{
    let d2 = 2 * denominator;
    if numerator == 0 || numerator == d2 {
        vstd::arithmetic::div_mod::lemma_mod_self_0(d2);
        vstd::arithmetic::div_mod::lemma_small_mod(0, d2 as nat);
    } else {
        vstd::arithmetic::div_mod::lemma_small_mod(numerator as nat, d2 as nat);
        vstd::arithmetic::div_mod::lemma_small_mod((d2 - numerator) as nat, d2 as nat);
    }
}

/// A zoom export starts at 0, reaches 1 at its middle frame, and shows frames `f` and
/// `total - f` at the same progress, so the camera runs in and back out the same way.
pub proof fn lemma_zoom_export_round_trip(frame: nat, total: nat)
    requires
        0 < total,
        frame <= total,
    ensures
        ping_pong(0, total as int) == (0int, total as int),
        2 * frame == total ==> ping_pong((2 * frame) as int, total as int) == (total as int, total as int),
        ping_pong(2 * (total - frame), total as int) == ping_pong((2 * frame) as int, total as int),
{
    vstd::arithmetic::div_mod::lemma_small_mod(0, 2 * total);
    if 2 * frame == total {
        vstd::arithmetic::div_mod::lemma_small_mod(total, 2 * total);
    }
    lemma_ping_pong_mirror((2 * frame) as int, total as int);
}

/// An orbit export shows each frame `f` of `total` at progress `f / total`: the frames sample
/// one full turn evenly, from 0 up to one step short of a full turn, so the sequence loops.
pub proof fn lemma_orbit_export_one_turn(frame: nat, total: nat)
    requires
        frame < total,
    ensures
        export_frame_progress(SceneMode::Orbit, frame as int, total as int) == (frame as int, total as int),
        frame + 1 == total ==> export_frame_progress(SceneMode::Orbit, frame as int, total as int).0 + 1
            == export_frame_progress(SceneMode::Orbit, frame as int, total as int).1,
{
}

/// Every exported frame shows a camera progress in `[0, 1]`, as a fraction with a positive
/// denominator.
pub proof fn lemma_export_progress_in_unit(mode: SceneMode, frame: nat, total: nat)
    requires
        frame < total,
    ensures
        0 < export_frame_progress(mode, frame as int, total as int).1,
        0 <= export_frame_progress(mode, frame as int, total as int).0 <= export_frame_progress(
            mode,
            frame as int,
            total as int,
        ).1,
{
    lemma_ping_pong_in_unit((2 * frame) as int, total as int);
}

/// Every export of two or more frames starts its camera at progress 0.
pub proof fn lemma_export_starts_at_zero(mode: SceneMode, total: nat)
    requires
        2 <= total,
    ensures
        export_frame_progress(mode, 0, total as int).0 == 0,
{
    vstd::arithmetic::div_mod::lemma_small_mod(0, 2 * total);
}

/// The zoom-in and the looping goodbye exports move the camera out and back at a steady pace:
/// frame `f` of `t` is at progress `2f / t` in the first half of the export and at
/// `2 (t - f) / t` in the second half, the same for both modes.
pub proof fn lemma_export_out_and_back(frame: nat, total: nat)
    requires
        frame < total,
    ensures
        export_frame_progress(SceneMode::ShutdownLoop, frame as int, total as int)
            == export_frame_progress(SceneMode::ZoomIn, frame as int, total as int),
        2 * frame <= total ==> export_frame_progress(
            SceneMode::ShutdownLoop,
            frame as int,
            total as int,
        ) == (2 * frame as int, total as int),
        2 * frame > total ==> export_frame_progress(
            SceneMode::ShutdownLoop,
            frame as int,
            total as int,
        ) == (2 * (total - frame) as int, total as int),
{
    vstd::arithmetic::div_mod::lemma_small_mod((2 * frame) as nat, 2 * total);
}

/// The goodbye outro export pulls the camera away once, at a steady pace: frame `f` of `t` is
/// at progress `f / (t - 1)`, so it runs from 0 on the first frame to 1 on the last, and later
/// frames are further along; an export of one frame shows the end of the move.
pub proof fn lemma_outro_export_runs_once(frame: nat, later: nat, total: nat)
    requires
        frame < later < total,
    ensures
        export_frame_progress(SceneMode::ShutdownOutro, frame as int, total as int) == (
            frame as int,
            total - 1,
        ),
        export_frame_progress(SceneMode::ShutdownOutro, (total - 1) as int, total as int).0
            == export_frame_progress(SceneMode::ShutdownOutro, (total - 1) as int, total as int).1,
        export_frame_progress(SceneMode::ShutdownOutro, frame as int, total as int).1
            == export_frame_progress(SceneMode::ShutdownOutro, later as int, total as int).1,
        export_frame_progress(SceneMode::ShutdownOutro, frame as int, total as int).0
            < export_frame_progress(SceneMode::ShutdownOutro, later as int, total as int).0,
        export_frame_progress(SceneMode::ShutdownOutro, 0, 1) == (1int, 1int),
{
}

/// Folding leaves a progress in `[0, 1]` as it is, so with `lemma_ping_pong_periodic` and
/// `lemma_ping_pong_mirror` it fixes the fold of every progress.
pub proof fn lemma_ping_pong_keeps_unit(numerator: int, denominator: int)
    requires
        0 <= numerator <= denominator,
        0 < denominator,
    ensures
        ping_pong(numerator, denominator) == (numerator, denominator),
{
    vstd::arithmetic::div_mod::lemma_small_mod(numerator as nat, (2 * denominator) as nat);
}

/// An intermission export shows each frame `f` of `total` at progress `f / total`: it runs
/// once through the intermission loop, evenly.
pub proof fn lemma_intermission_export_one_loop(frame: nat, total: nat)
    requires
        frame < total,
    ensures
        export_frame_progress(SceneMode::Intermission, frame as int, total as int) == (
            frame as int,
            total as int,
        ),
{
}

} // verus!
