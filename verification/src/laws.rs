//! Engine-level laws: how the playback transitions compose.
//!
//! Each lemma is stated over the transition relations that the engine
//! methods ensure, so it holds of every run of the worker loop that
//! processes commands one at a time in arrival order.

use vstd::prelude::*;

use vstd::arithmetic::div_mod::lemma_fundamental_div_mod;

use crate::FRACTION_SCALE;
use crate::clamped_fraction;
use crate::engine::AudioPlayer;
use crate::engine::PlaybackState;
use crate::engine::SeekPlan;
use crate::engine::pause_transition;
use crate::engine::play_transition;
use crate::engine::resume_transition;
use crate::engine::seek_commit_transition;
use crate::engine::seek_decision;
use crate::engine::snapshot_update;
use crate::engine::spec_eq_refresh_fraction;
use crate::engine::spec_is_finished;
use crate::engine::stop_transition;

verus! {

/// Loading a track resets the position: right after the load commits at
/// `now`, the engine's position reads zero and its duration is exactly
/// what the decoder reported (zero while unknown).
pub proof fn lemma_play_resets_position(pre: AudioPlayer, post: AudioPlayer, path: Seq<char>, dur: Option<u64>, now: u64)
    requires
        play_transition(pre, post, path, dur, now),
    ensures
        post.position_ms_at(now) == 0,
        post.track_duration == dur,
        post.duration_or_zero() == (match dur {
            Some(d) => d,
            None => 0u64,
        }),
{
}

/// Seek correctness: a decided and committed seek lands the position on
/// the clamped fraction of the duration, never past the end, and leaves
/// a segment open exactly when playback was active before the seek.
pub proof fn lemma_seek_correctness(pre: AudioPlayer, post: AudioPlayer, fraction: i64, sink_paused: bool, plan: SeekPlan, now: u64)
    requires
        pre.current_path@.len() > 0,
        pre.track_duration is Some,
        seek_decision(pre, fraction, sink_paused, Ok(plan)),
        seek_commit_transition(pre, post, plan, now),
    ensures
        post.position_ms_at(now) == pre.track_duration->0 * clamped_fraction(fraction) / (
        FRACTION_SCALE as int),
        post.position_ms_at(now) <= pre.track_duration->0,
        post.playback_started_at is Some <==> (pre.playback_started_at is Some || !sink_paused),
{
}

/// Pause/resume continuity: pausing at `t1` and resuming at any later
/// instant `t2` leaves the position exactly where it stood at the pause,
/// and reopens a segment.
pub proof fn lemma_pause_resume_continuity(e0: AudioPlayer, e1: AudioPlayer, e2: AudioPlayer, t1: u64, t2: u64)
    requires
        pause_transition(e0, e1, t1),
        resume_transition(e1, e2, t2),
    ensures
        e2.position_ms_at(t2) == e0.position_ms_at(t1),
        e2.playback_started_at is Some,
{
}

/// End-of-track detection: once the queue reports empty while a path is
/// still set, the refreshed snapshot is not playing, and it counts as
/// finished as soon as its position is within the tenth-second allowance
/// of the duration.
pub proof fn lemma_end_of_track(e: AudioPlayer, pre: PlaybackState, post: PlaybackState, now: u64, sink_paused: bool)
    requires
        snapshot_update(e, pre, post, now, sink_paused, true),
        e.current_path@.len() > 0,
    ensures
        !post.is_playing,
        post.position + 100 >= post.duration ==> spec_is_finished(post),
{
}

/// Rounding both ways through thousandths loses less than a thousandth
/// of the whole, plus the integer remainder.
proof fn lemma_fraction_round_trip(d: int, pos: int)
    requires
        0 < d,
        0 <= pos <= d,
    ensures
        ({
            let f = pos * 1000 / d;
            let target = d * f / 1000;
            &&& 0 <= f <= 1000
            &&& target <= pos
            &&& 1000 * (pos - target) <= d + 999
        }),
{
    let f = pos * 1000 / d;
    let target = d * f / 1000;
    lemma_fundamental_div_mod(pos * 1000, d);
    lemma_fundamental_div_mod(d * f, 1000);
    let r1 = (pos * 1000) % d;
    let r2 = (d * f) % 1000;
    assert(pos * 1000 == d * f + r1);
    assert(d * f == 1000 * target + r2);
    assert(0 <= r1 < d && 0 <= r2 < 1000) by (nonlinear_arith)
        requires
            0 < d,
            r1 == (pos * 1000) % d,
            r2 == (d * f) % 1000,
    ;
    assert(0 <= f) by (nonlinear_arith)
        requires
            0 < d,
            0 <= pos,
            f == pos * 1000 / d,
    ;
    assert(f <= 1000) by (nonlinear_arith)
        requires
            0 < d,
            pos <= d,
            pos * 1000 == d * f + r1,
            0 <= r1,
    ;
    assert(target <= pos) by (nonlinear_arith)
        requires
            pos * 1000 == d * f + r1,
            d * f == 1000 * target + r2,
            0 <= r1,
            0 <= r2,
    ;
}

/// Changing the equalizer mid-track re-seeks to the current position
/// expressed in thousandths of the duration. The landing point never
/// runs ahead of the position it replaces, and it trails that position
/// by less than a thousandth of the duration plus the millisecond lost
/// to rounding.
pub proof fn lemma_eq_reseek_keeps_position(e: AudioPlayer, now: u64, f: i64, plan: SeekPlan, sink_paused: bool)
    requires
        e.current_path@.len() > 0,
        e.track_duration matches Some(d) && d > 0,
        0 <= e.position_ms_at(now) <= e.track_duration->0,
        spec_eq_refresh_fraction(e, now) == Some(f),
        seek_decision(e, f, sink_paused, Ok(plan)),
    ensures
        plan.target_ms <= e.position_ms_at(now),
        1000 * (e.position_ms_at(now) - plan.target_ms) <= e.track_duration->0 + 999,
{
    let d = e.track_duration->0 as int;
    let pos = e.position_ms_at(now);
    lemma_fraction_round_trip(d, pos);
    let raw = pos * (FRACTION_SCALE as int) / d;
    assert(f == raw);
    assert(clamped_fraction(f) == raw);
}

/// Command ordering: processing `Play`, `Pause`, `Resume`, `Stop` in
/// arrival order, each to completion, ends in the stopped state — path
/// cleared, no open segment, position zero — with the volume and
/// equalizer settings carried through untouched.
pub proof fn lemma_command_order(e0: AudioPlayer, e1: AudioPlayer, e2: AudioPlayer, e3: AudioPlayer, e4: AudioPlayer, path: Seq<char>, dur: Option<u64>, t1: u64, t2: u64, t3: u64)
    requires
        play_transition(e0, e1, path, dur, t1),
        pause_transition(e1, e2, t2),
        resume_transition(e2, e3, t3),
        stop_transition(e3, e4),
    ensures
        e4.current_path@.len() == 0,
        e4.playback_started_at is None,
        e4.position_at_pause == 0,
        e4.volume == e0.volume,
        e4.eq_settings == e0.eq_settings,
{
}

} // verus!
