//! The playback engine core: the state machine that one worker thread
//! owns, its timing bookkeeping, and the snapshot it publishes.
//!
//! All times are integer milliseconds. A playback *segment* is a span of
//! unpaused playback; while a segment is active the engine remembers the
//! clock reading at which it started, and the current position is the
//! accumulated position at the last pause or seek plus the time elapsed
//! since that reading. Opening, decoding and queueing audio happens
//! outside this crate; the caller reports the outcomes (the decoded
//! duration, whether the queue is paused or empty, the clock reading) and
//! this module makes every decision.

use vstd::prelude::*;

use crate::FRACTION_SCALE;
use crate::clamp_fraction;
use crate::clamped_fraction;
use crate::eq::EqSettings;
use crate::eq::default_bands;

verus! {

/// The externally visible playback snapshot. `position` and `duration`
/// are in milliseconds; `volume` is in thousandths of full scale.
#[derive(Debug)]
pub struct PlaybackState {
    pub is_playing: bool,
    pub position: u64,
    pub duration: u64,
    pub volume: u64,
    pub current_path: String,
    pub eq_settings: EqSettings,
    pub is_initialized: bool,
}

impl Clone for PlaybackState {
    fn clone(&self) -> (r: Self)
        ensures
            r.is_playing == self.is_playing,
            r.position == self.position,
            r.duration == self.duration,
            r.volume == self.volume,
            r.current_path@ == self.current_path@,
            r.eq_settings.enabled == self.eq_settings.enabled,
            r.eq_settings.bands@ == self.eq_settings.bands@,
            r.is_initialized == self.is_initialized,
    {
        PlaybackState {
            is_playing: self.is_playing,
            position: self.position,
            duration: self.duration,
            volume: self.volume,
            current_path: self.current_path.clone(),
            eq_settings: self.eq_settings.clone(),
            is_initialized: self.is_initialized,
        }
    }
}

impl Default for PlaybackState {
    /// The snapshot before anything has played: stopped, at zero, volume
    /// 0.7 of full scale, no path, default equalizer, engine not yet
    /// initialized.
    fn default() -> (r: Self)
        ensures
            r.is_playing == false,
            r.position == 0,
            r.duration == 0,
            r.volume == 700,
            r.current_path@.len() == 0,
            r.eq_settings.enabled == false,
            r.eq_settings.bands@ == default_bands(),
            r.is_initialized == false,
    {
        PlaybackState {
            is_playing: false,
            position: 0,
            duration: 0,
            volume: 700,
            current_path: String::new(),
            eq_settings: EqSettings::default(),
            is_initialized: false,
        }
    }
}

/// A control message for the engine, carried over the command channel.
/// `SetVolume` and `Seek` carry a fraction in signed thousandths; the
/// engine clamps it into `[0, 1000]`.
pub enum AudioCommand {
    Play(String),
    Pause,
    Resume,
    Stop,
    SetVolume(i64),
    Seek(i64),
    SetEq(EqSettings),
}

/// Why a seek request was refused.
#[derive(Clone, Copy, Debug, PartialEq, Eq, Structural)]
pub enum SeekError {
    /// No track is loaded, so there is nothing to seek in.
    NoTrackLoaded,
    /// The decoder did not report a total duration, so a fraction of it
    /// cannot be computed.
    DurationUnknown,
}

/// A decided seek: where to skip to, and whether playback resumes
/// immediately afterwards.
#[derive(Clone, Copy, Debug, PartialEq, Eq, Structural)]
pub struct SeekPlan {
    pub target_ms: u64,
    pub resume_playing: bool,
}

/// The engine state that the single worker thread owns. Times are in
/// milliseconds; the clock readings handed to the methods must come from
/// one monotonic clock.
#[derive(Debug)]
pub struct AudioPlayer {
    /// Total duration the decoder reported for the loaded track, if any.
    pub track_duration: Option<u64>,
    /// Clock reading at which the active segment started; `None` while
    /// paused or stopped.
    pub playback_started_at: Option<u64>,
    /// Position accumulated up to the last pause or seek point.
    pub position_at_pause: u64,
    /// Path of the loaded track; empty when none is loaded.
    pub current_path: String,
    /// Volume in thousandths of full scale.
    pub volume: u64,
    /// The equalizer settings the current pipeline was built from.
    pub eq_settings: EqSettings,
}

impl AudioPlayer {
    /// The engine invariant: the stored volume is a legal fraction.
    pub open spec fn wf(self) -> bool {
        self.volume <= FRACTION_SCALE
    }

    /// The position the engine would report at clock reading `now_ms`,
    /// before any clamping to the track duration.
    pub open spec fn position_ms_at(self, now_ms: u64) -> int {
        match self.playback_started_at {
            Some(s) => self.position_at_pause + now_ms - s,
            None => self.position_at_pause as int,
        }
    }

    /// The duration reported in snapshots: the decoded duration, or zero
    /// while it is unknown.
    pub open spec fn duration_or_zero(self) -> u64 {
        match self.track_duration {
            Some(d) => d,
            None => 0u64,
        }
    }

    /// No overflow can arise when the position is read at `now_ms`: the
    /// segment start precedes `now_ms` and the sum fits the word.
    pub open spec fn clock_ok(self, now_ms: u64) -> bool {
        self.playback_started_at matches Some(s) ==> s <= now_ms
            && self.position_at_pause + now_ms - s <= u64::MAX
    }

    /// A fresh engine: nothing loaded, stopped at zero, volume 0.7 of
    /// full scale, default equalizer. The output device that the caller
    /// acquires alongside this state may fail to open; in that case this
    /// state is simply dropped and initialization is retried on the next
    /// command.
    pub fn new() -> (p: AudioPlayer)
        ensures
            p.wf(),
            initial_engine(p),
    {
        AudioPlayer {
            track_duration: None,
            playback_started_at: None,
            position_at_pause: 0,
            current_path: String::new(),
            volume: 700,
            eq_settings: EqSettings::default(),
        }
    }

    /// Commit a freshly decoded track: record its path and reported
    /// duration, reset the position to zero and start a segment at
    /// `now_ms`. The caller invokes this only after the file opened and
    /// decoded successfully; on failure the engine state stays as it was.
    pub fn load_track(&mut self, path: &str, total_duration_ms: Option<u64>, now_ms: u64)
        requires
            old(self).wf(),
        ensures
            final(self).wf(),
            play_transition(*old(self), *final(self), path@, total_duration_ms, now_ms),
    {
        self.track_duration = total_duration_ms;
        self.playback_started_at = Some(now_ms);
        self.position_at_pause = 0;
        self.current_path = path.to_owned();
    }

    /// Record that loading a track failed after the old queue was
    /// already discarded: no track is loaded any more, so the path is
    /// cleared, the segment closed, the position reset and the duration
    /// forgotten. Volume and equalizer settings stay for the next
    /// attempt.
    pub fn abort_load(&mut self)
        requires
            old(self).wf(),
        ensures
            final(self).wf(),
            load_failed_transition(*old(self), *final(self)),
    {
        self.current_path = String::new();
        self.playback_started_at = None;
        self.position_at_pause = 0;
        self.track_duration = None;
    }

    /// Pause: fold the elapsed segment time into the accumulated
    /// position and close the segment. Without an active segment only
    /// the (already closed) segment marker is cleared.
    pub fn pause(&mut self, now_ms: u64)
        requires
            old(self).wf(),
            old(self).clock_ok(now_ms),
        ensures
            final(self).wf(),
            pause_transition(*old(self), *final(self), now_ms),
    {
        if let Some(started_at) = self.playback_started_at {
            self.position_at_pause = self.position_at_pause + (now_ms - started_at);
        }
        self.playback_started_at = None;
    }

    /// Resume: open a new segment at `now_ms`. The accumulated position
    /// is untouched, so the position continues exactly where it stood.
    pub fn resume(&mut self, now_ms: u64)
        requires
            old(self).wf(),
        ensures
            final(self).wf(),
            resume_transition(*old(self), *final(self), now_ms),
    {
        self.playback_started_at = Some(now_ms);
    }

    /// Stop: clear the path, close the segment and reset the accumulated
    /// position. The last reported duration is kept, as the queue it
    /// described is simply discarded.
    pub fn stop(&mut self)
        requires
            old(self).wf(),
        ensures
            final(self).wf(),
            stop_transition(*old(self), *final(self)),
    {
        self.current_path = String::new();
        self.playback_started_at = None;
        self.position_at_pause = 0;
    }

    /// Store a volume request, clamped into `[0, 1000]` thousandths.
    pub fn set_volume(&mut self, v: i64)
        requires
            old(self).wf(),
        ensures
            final(self).wf(),
            set_volume_transition(*old(self), *final(self), v),
    {
        self.volume = clamp_fraction(v);
    }

    /// Replace the stored equalizer settings. Applying them to a running
    /// track takes a re-seek, which the caller drives separately.
    pub fn set_eq(&mut self, settings: EqSettings)
        requires
            old(self).wf(),
        ensures
            final(self).wf(),
            final(self).eq_settings == settings,
            final(self).track_duration == old(self).track_duration,
            final(self).playback_started_at == old(self).playback_started_at,
            final(self).position_at_pause == old(self).position_at_pause,
            final(self).current_path@ == old(self).current_path@,
            final(self).volume == old(self).volume,
    {
        self.eq_settings = settings;
    }

    /// Whether playback counts as active for seek purposes: a segment is
    /// open, or the queue itself reports not-paused.
    pub fn was_playing(&self, sink_paused: bool) -> (r: bool)
        ensures
            r == (self.playback_started_at is Some || !sink_paused),
    {
        self.playback_started_at.is_some() || !sink_paused
    }

    /// Decide a seek to `fraction` thousandths of the duration. Fails
    /// with `NoTrackLoaded` when no path is set, and with
    /// `DurationUnknown` when the decoder reported no duration; otherwise
    /// the clamped fraction of the duration is the target, and playback
    /// resumes after the seek exactly when it was running before it.
    pub fn plan_seek(&self, fraction: i64, sink_paused: bool) -> (r: Result<SeekPlan, SeekError>)
        ensures
            seek_decision(*self, fraction, sink_paused, r),
    {
        if self.current_path.as_str().unicode_len() == 0 {
            return Err(SeekError::NoTrackLoaded);
        }
        let duration = match self.track_duration {
            Some(d) => d,
            None => {
                return Err(SeekError::DurationUnknown);
            },
        };
        let clamped = clamp_fraction(fraction);
        proof {
            assert((duration as int) * (clamped as int) <= (u64::MAX as int) * (
            FRACTION_SCALE as int)) by (nonlinear_arith)
                requires
                    0 <= duration <= u64::MAX as int,
                    0 <= clamped <= FRACTION_SCALE as int,
            ;
        }
        let target_wide: u128 = (duration as u128) * (clamped as u128) / (FRACTION_SCALE as u128);
        proof {
            let d = duration as int;
            let c = clamped as int;
            assert(d * c <= d * (FRACTION_SCALE as int)) by (nonlinear_arith)
                requires
                    c <= FRACTION_SCALE as int,
                    0 <= d,
                    0 <= c,
            ;
            assert(d * (FRACTION_SCALE as int) / (FRACTION_SCALE as int) == d) by (nonlinear_arith);
            assert(d * c / (FRACTION_SCALE as int) <= d * (FRACTION_SCALE as int) / (
            FRACTION_SCALE as int)) by (nonlinear_arith)
                requires
                    d * c <= d * (FRACTION_SCALE as int),
            ;
        }
        let target_ms: u64 = target_wide as u64;
        let resume_playing = self.was_playing(sink_paused);
        Ok(SeekPlan { target_ms, resume_playing })
    }

    /// Commit a decided seek after the track was re-opened, re-decoded
    /// and skipped forward to the target: the accumulated position
    /// becomes the target, and a segment starts at `now_ms` exactly when
    /// the plan says playback resumes.
    pub fn commit_seek(&mut self, plan: SeekPlan, now_ms: u64)
        requires
            old(self).wf(),
        ensures
            final(self).wf(),
            seek_commit_transition(*old(self), *final(self), plan, now_ms),
    {
        self.position_at_pause = plan.target_ms;
        if plan.resume_playing {
            self.playback_started_at = Some(now_ms);
        } else {
            self.playback_started_at = None;
        }
    }

    /// The fraction, in thousandths and capped at full scale, that a
    /// re-seek must target so that new equalizer settings apply at the
    /// current position. `None` when no track is loaded or the duration
    /// is unknown or zero, in which case no re-seek happens.
    pub fn eq_refresh_fraction(&self, now_ms: u64) -> (r: Option<i64>)
        requires
            self.clock_ok(now_ms),
        ensures
            r == spec_eq_refresh_fraction(*self, now_ms),
            r matches Some(f) ==> 0 <= f <= FRACTION_SCALE,
    {
        if self.current_path.as_str().unicode_len() == 0 {
            return None;
        }
        let duration = match self.track_duration {
            Some(d) => d,
            None => {
                return None;
            },
        };
        if duration == 0 {
            return None;
        }
        let position: u64 = match self.playback_started_at {
            Some(s) => self.position_at_pause + (now_ms - s),
            None => self.position_at_pause,
        };
        let frac_wide: u128 = (position as u128) * (FRACTION_SCALE as u128) / (duration as u128);
        let frac: i64 = if frac_wide > FRACTION_SCALE as u128 {
            FRACTION_SCALE as i64
        } else {
            frac_wide as i64
        };
        Some(frac)
    }

    /// Refresh the published snapshot from the engine state, the queue
    /// observations and the clock. The position is the segment formula,
    /// clamped to the duration when one is known; playback counts as
    /// active only while a segment is open and the queue is neither
    /// paused nor drained, so a naturally drained queue reports the end
    /// of the track without any completion callback.
    pub fn update_state(&self, state: &mut PlaybackState, now_ms: u64, sink_paused: bool, sink_empty: bool)
        requires
            self.wf(),
            self.clock_ok(now_ms),
        ensures
            snapshot_update(*self, *old(state), *final(state), now_ms, sink_paused, sink_empty),
    {
        state.is_playing = self.playback_started_at.is_some() && !sink_paused && !sink_empty;
        state.duration = match self.track_duration {
            Some(d) => d,
            None => 0,
        };
        state.current_path = self.current_path.clone();
        state.volume = self.volume;
        state.eq_settings = self.eq_settings.clone();

        let mut position: u64 = match self.playback_started_at {
            Some(started_at) => self.position_at_pause + (now_ms - started_at),
            None => self.position_at_pause,
        };
        if state.duration > 0 && position > state.duration {
            position = state.duration;
        }
        state.position = position;

        if sink_empty && self.current_path.as_str().unicode_len() > 0 {
            state.is_playing = false;
        }
    }

    /// A minimal internal snapshot carrying only the timing fields: the
    /// unclamped position at `now_ms` and the duration (zero while
    /// unknown), with every other field at its default. It feeds the
    /// equalizer re-seek computation, which needs the raw position, and
    /// is never published.
    pub fn get_state_for_internal(&self, now_ms: u64) -> (r: PlaybackState)
        requires
            self.clock_ok(now_ms),
        ensures
            r.position as int == self.position_ms_at(now_ms),
            r.duration == self.duration_or_zero(),
            r.is_playing == false,
            r.volume == 700,
            r.current_path@.len() == 0,
            r.eq_settings.enabled == false,
            r.eq_settings.bands@ == default_bands(),
            r.is_initialized == false,
    {
        let mut s = PlaybackState::default();
        s.duration = match self.track_duration {
            Some(d) => d,
            None => 0,
        };
        s.position = match self.playback_started_at {
            Some(started_at) => self.position_at_pause + (now_ms - started_at),
            None => self.position_at_pause,
        };
        s
    }
}

/// The fields of a freshly created engine: nothing loaded, stopped at
/// zero, volume 0.7 of full scale, the default equalizer.
pub open spec fn initial_engine(p: AudioPlayer) -> bool {
    &&& p.track_duration is None
    &&& p.playback_started_at is None
    &&& p.position_at_pause == 0
    &&& p.current_path@.len() == 0
    &&& p.volume == 700
    &&& p.eq_settings.enabled == false
    &&& p.eq_settings.bands@ == default_bands()
}

/// The engine slot the worker thread owns for the process lifetime.
/// The engine is created lazily, on the first command, because
/// acquiring an output device can fail or be expensive: until then the
/// slot is explicitly `Uninitialized`, and a failed acquisition is a
/// transition that stays there, to be retried on the next command.
pub enum EngineLifecycle {
    /// No output device has been acquired yet.
    Uninitialized,
    /// The device opened; the engine core lives here from now on.
    Ready(AudioPlayer),
}

/// What one lazy-initialization step does, taken when a command
/// arrives: a ready engine is untouched; an uninitialized slot becomes
/// ready, holding a fresh engine core, exactly when the device opened,
/// and otherwise stays uninitialized for the next command to retry.
pub open spec fn init_transition(pre: EngineLifecycle, post: EngineLifecycle, device_opened: bool) -> bool {
    &&& (post is Ready <==> (pre is Ready || device_opened))
    &&& (pre is Ready ==> post == pre)
    &&& (pre is Uninitialized && device_opened ==> (post matches EngineLifecycle::Ready(p)
        && initial_engine(p)))
    &&& (pre is Uninitialized && !device_opened ==> post is Uninitialized)
}

impl EngineLifecycle {
    /// The lifecycle invariant: a ready slot holds a well-formed core.
    pub open spec fn wf(self) -> bool {
        self matches EngineLifecycle::Ready(p) ==> p.wf()
    }

    /// The slot as a process starts: nothing acquired.
    pub fn new() -> (r: EngineLifecycle)
        ensures
            r.wf(),
            r is Uninitialized,
    {
        EngineLifecycle::Uninitialized
    }

    /// Take one lazy-initialization step with the outcome of the
    /// caller's device acquisition (ignored when already ready). The
    /// result says whether the triggering command proceeds: a command
    /// that finds no engine and no device is dropped, fire-and-forget,
    /// and the next command retries.
    pub fn step_init(&mut self, device_opened: bool) -> (proceed: bool)
        requires
            old(self).wf(),
        ensures
            final(self).wf(),
            init_transition(*old(self), *final(self), device_opened),
            proceed == (*final(self) is Ready),
    {
        match self {
            EngineLifecycle::Uninitialized => {
                if device_opened {
                    *self = EngineLifecycle::Ready(AudioPlayer::new());
                    true
                } else {
                    false
                }
            },
            EngineLifecycle::Ready(_) => true,
        }
    }
}

/// Whether a snapshot describes a finished track: not playing, a path
/// still set, and the position within a tenth of a second of the end.
pub open spec fn spec_is_finished(state: PlaybackState) -> bool {
    &&& !state.is_playing
    &&& state.current_path@.len() > 0
    &&& state.position + 100 >= state.duration
}

/// A track is finished when it has a path but is not playing and the
/// position has reached the duration, less a 0.1-second allowance for
/// decoder and clock rounding.
pub fn is_finished(state: &PlaybackState) -> (r: bool)
    ensures
        r == spec_is_finished(*state),
{
    !state.is_playing && state.current_path.as_str().unicode_len() > 0 && (state.duration <= 100
        || state.position >= state.duration - 100)
}

/// The native engine is available once its lazy initialization has
/// succeeded, which the snapshot records.
pub fn is_available(state: &PlaybackState) -> (r: bool)
    ensures
        r == state.is_initialized,
{
    state.is_initialized
}

/// What loading a track does: `path` and the reported duration are
/// stored, the position restarts at zero with a segment open since
/// `now`, and volume and equalizer settings carry over.
pub open spec fn play_transition(pre: AudioPlayer, post: AudioPlayer, path: Seq<char>, dur: Option<u64>, now: u64) -> bool {
    &&& post.track_duration == dur
    &&& post.playback_started_at == Some(now)
    &&& post.position_at_pause == 0
    &&& post.current_path@ == path
    &&& post.volume == pre.volume
    &&& post.eq_settings == pre.eq_settings
}

/// What a failed load leaves: the engine is back to "no track loaded"
/// — path cleared, segment closed, position zero, duration unknown —
/// while volume and equalizer settings carry over.
pub open spec fn load_failed_transition(pre: AudioPlayer, post: AudioPlayer) -> bool {
    &&& post.current_path@.len() == 0
    &&& post.playback_started_at is None
    &&& post.position_at_pause == 0
    &&& post.track_duration is None
    &&& post.volume == pre.volume
    &&& post.eq_settings == pre.eq_settings
}

/// What pausing at `now` does: the elapsed segment time is folded into
/// the accumulated position, the segment closes, and everything else
/// stays.
pub open spec fn pause_transition(pre: AudioPlayer, post: AudioPlayer, now: u64) -> bool {
    &&& post.playback_started_at is None
    &&& post.position_at_pause as int == pre.position_ms_at(now)
    &&& post.track_duration == pre.track_duration
    &&& post.current_path@ == pre.current_path@
    &&& post.volume == pre.volume
    &&& post.eq_settings == pre.eq_settings
}

/// What resuming at `now` does: a segment opens at `now` and everything
/// else stays, so the position continues from its accumulated value.
pub open spec fn resume_transition(pre: AudioPlayer, post: AudioPlayer, now: u64) -> bool {
    &&& post.playback_started_at == Some(now)
    &&& post.position_at_pause == pre.position_at_pause
    &&& post.track_duration == pre.track_duration
    &&& post.current_path@ == pre.current_path@
    &&& post.volume == pre.volume
    &&& post.eq_settings == pre.eq_settings
}

/// What stopping does: path cleared, segment closed, position reset;
/// the last known duration, volume and equalizer settings stay.
pub open spec fn stop_transition(pre: AudioPlayer, post: AudioPlayer) -> bool {
    &&& post.current_path@.len() == 0
    &&& post.playback_started_at is None
    &&& post.position_at_pause == 0
    &&& post.track_duration == pre.track_duration
    &&& post.volume == pre.volume
    &&& post.eq_settings == pre.eq_settings
}

/// What a volume request does: the clamped fraction is stored and
/// nothing else moves.
pub open spec fn set_volume_transition(pre: AudioPlayer, post: AudioPlayer, v: i64) -> bool {
    &&& post.volume == clamped_fraction(v)
    &&& post.track_duration == pre.track_duration
    &&& post.playback_started_at == pre.playback_started_at
    &&& post.position_at_pause == pre.position_at_pause
    &&& post.current_path@ == pre.current_path@
    &&& post.eq_settings == pre.eq_settings
}

/// What deciding a seek returns: an error exactly when no track is
/// loaded (checked first) or the duration is unknown; otherwise the
/// target is the clamped fraction of the duration, never past the end,
/// and the plan resumes playback exactly when a segment was open or the
/// queue was not paused.
pub open spec fn seek_decision(e: AudioPlayer, fraction: i64, sink_paused: bool, r: Result<SeekPlan, SeekError>) -> bool {
    if e.current_path@.len() == 0 {
        r == Result::<SeekPlan, SeekError>::Err(SeekError::NoTrackLoaded)
    } else if e.track_duration is None {
        r == Result::<SeekPlan, SeekError>::Err(SeekError::DurationUnknown)
    } else {
        &&& r is Ok
        &&& r->Ok_0.target_ms as int == e.track_duration->0 * clamped_fraction(fraction) / (
        FRACTION_SCALE as int)
        &&& r->Ok_0.target_ms <= e.track_duration->0
        &&& r->Ok_0.resume_playing == (e.playback_started_at is Some || !sink_paused)
    }
}

/// What committing a seek at `now` does: the accumulated position
/// becomes the target, a segment opens at `now` exactly when the plan
/// resumes playback, and everything else stays.
pub open spec fn seek_commit_transition(pre: AudioPlayer, post: AudioPlayer, plan: SeekPlan, now: u64) -> bool {
    &&& post.position_at_pause == plan.target_ms
    &&& post.playback_started_at == (if plan.resume_playing {
        Some(now)
    } else {
        None::<u64>
    })
    &&& post.track_duration == pre.track_duration
    &&& post.current_path@ == pre.current_path@
    &&& post.volume == pre.volume
    &&& post.eq_settings == pre.eq_settings
}

/// The fraction an equalizer change re-seeks to: none without a loaded
/// track and a known nonzero duration, else the current unclamped
/// position over the duration, in thousandths, capped at full scale.
pub open spec fn spec_eq_refresh_fraction(e: AudioPlayer, now: u64) -> Option<i64> {
    if e.current_path@.len() == 0 || e.track_duration is None || e.track_duration->0 == 0 {
        None
    } else {
        let raw = e.position_ms_at(now) * (FRACTION_SCALE as int) / (e.track_duration->0 as int);
        if raw > FRACTION_SCALE as int {
            Some(FRACTION_SCALE as i64)
        } else {
            Some(raw as i64)
        }
    }
}

/// What refreshing the snapshot does, field by field: the queue
/// observations decide `is_playing`, the duration defaults to zero, the
/// position follows the segment formula and is clamped to a known
/// duration whether or not a segment is open — the published snapshot
/// never reads past the end — the engine's path, volume and equalizer
/// are copied, and the initialization flag is left as it was.
pub open spec fn snapshot_update(e: AudioPlayer, pre: PlaybackState, post: PlaybackState, now: u64, sink_paused: bool, sink_empty: bool) -> bool {
    &&& post.is_playing == (e.playback_started_at is Some && !sink_paused && !sink_empty)
    &&& post.duration == e.duration_or_zero()
    &&& post.current_path@ == e.current_path@
    &&& post.volume == e.volume
    &&& post.eq_settings.enabled == e.eq_settings.enabled
    &&& post.eq_settings.bands@ == e.eq_settings.bands@
    &&& post.position as int == (if e.duration_or_zero() > 0 && e.position_ms_at(now)
        > e.duration_or_zero() {
        e.duration_or_zero() as int
    } else {
        e.position_ms_at(now)
    })
    &&& post.is_initialized == pre.is_initialized
}

} // verus!
