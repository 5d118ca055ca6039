use audion::engine::{
    is_available, is_finished, AudioPlayer, EngineLifecycle, PlaybackState, SeekError,
};

#[test]
fn fresh_engine_defaults() {
    let p = AudioPlayer::new();
    assert!(p.track_duration.is_none());
    assert!(p.playback_started_at.is_none());
    assert_eq!(p.position_at_pause, 0);
    assert_eq!(p.current_path, "");
    assert_eq!(p.volume, 700);
    assert!(!p.eq_settings.enabled);
    assert_eq!(p.eq_settings.bands.len(), 10);
}

#[test]
fn default_snapshot() {
    let s = PlaybackState::default();
    assert!(!s.is_playing);
    assert_eq!(s.position, 0);
    assert_eq!(s.duration, 0);
    assert_eq!(s.volume, 700);
    assert_eq!(s.current_path, "");
    assert!(!s.is_initialized);
}

#[test]
fn play_resets_position() {
    let mut p = AudioPlayer::new();
    p.pause(500);
    p.resume(600);
    p.load_track("/music/a.flac", Some(200_000), 1_000);
    let mut s = PlaybackState::default();
    p.update_state(&mut s, 1_000, false, false);
    assert_eq!(s.position, 0);
    assert_eq!(s.duration, 200_000);
    assert_eq!(s.current_path, "/music/a.flac");
    assert!(s.is_playing);
}

#[test]
fn play_without_reported_duration() {
    let mut p = AudioPlayer::new();
    p.load_track("/music/a.ogg", None, 1_000);
    let mut s = PlaybackState::default();
    p.update_state(&mut s, 2_000, false, false);
    assert_eq!(s.duration, 0);
    assert_eq!(s.position, 1_000);
}

#[test]
fn position_tracks_wall_clock_and_clamps() {
    let mut p = AudioPlayer::new();
    p.load_track("/t.mp3", Some(10_000), 0);
    let mut s = PlaybackState::default();
    p.update_state(&mut s, 4_000, false, false);
    assert_eq!(s.position, 4_000);
    // past the end the reported position is clamped to the duration
    p.update_state(&mut s, 25_000, false, false);
    assert_eq!(s.position, 10_000);
    // pausing past the end folds the excess in, but the published
    // snapshot still never reads past a known duration
    p.pause(25_000);
    p.update_state(&mut s, 30_000, true, false);
    assert_eq!(s.position, 10_000);
    assert!(s.position <= s.duration);
}

#[test]
fn failed_load_leaves_no_track() {
    let mut p = AudioPlayer::new();
    p.set_volume(321);
    p.load_track("/old.mp3", Some(5_000), 0);
    // a later load that fails after the queue was discarded leaves the
    // engine with no track at all, not with the stale one
    p.abort_load();
    assert_eq!(p.current_path, "");
    assert!(p.playback_started_at.is_none());
    assert_eq!(p.position_at_pause, 0);
    assert!(p.track_duration.is_none());
    assert_eq!(p.volume, 321);
    let mut s = PlaybackState::default();
    p.update_state(&mut s, 9_000, true, true);
    assert!(!is_finished(&s));
    assert_eq!(s.current_path, "");
}

#[test]
fn lazy_initialization_lifecycle() {
    let mut slot = EngineLifecycle::new();
    assert!(matches!(slot, EngineLifecycle::Uninitialized));
    // a failed device acquisition drops the triggering command and
    // leaves the slot uninitialized for the next one
    assert!(!slot.step_init(false));
    assert!(matches!(slot, EngineLifecycle::Uninitialized));
    // the retry that finds a device makes the engine ready
    assert!(slot.step_init(true));
    match &slot {
        EngineLifecycle::Ready(core) => {
            assert_eq!(core.volume, 700);
            assert_eq!(core.current_path, "");
        }
        EngineLifecycle::Uninitialized => panic!("engine should be ready"),
    }
    // once ready, later steps change nothing and commands proceed
    assert!(slot.step_init(false));
    assert!(matches!(slot, EngineLifecycle::Ready(_)));
}

#[test]
fn pause_resume_continuity() {
    let mut p = AudioPlayer::new();
    p.load_track("/t.mp3", Some(300_000), 1_000);
    p.pause(31_000);
    assert_eq!(p.position_at_pause, 30_000);
    assert!(p.playback_started_at.is_none());
    p.resume(31_000);
    let mut s = PlaybackState::default();
    p.update_state(&mut s, 31_000, false, false);
    assert_eq!(s.position, 30_000);
    assert!(s.is_playing);
}

#[test]
fn volume_clamping() {
    let mut p = AudioPlayer::new();
    p.set_volume(-1_000);
    assert_eq!(p.volume, 0);
    p.set_volume(5_000);
    assert_eq!(p.volume, 1_000);
    p.set_volume(250);
    assert_eq!(p.volume, 250);
}

#[test]
fn seek_needs_a_track() {
    let p = AudioPlayer::new();
    assert_eq!(p.plan_seek(500, true), Err(SeekError::NoTrackLoaded));
}

#[test]
fn seek_needs_a_duration() {
    let mut p = AudioPlayer::new();
    p.load_track("/t.mp3", None, 0);
    assert_eq!(p.plan_seek(500, true), Err(SeekError::DurationUnknown));
}

#[test]
fn seek_correctness() {
    let mut p = AudioPlayer::new();
    p.load_track("/t.mp3", Some(200_000), 0);
    // playing: the seek lands on the fraction and keeps playing
    let plan = p.plan_seek(250, false).unwrap();
    assert_eq!(plan.target_ms, 50_000);
    assert!(plan.resume_playing);
    p.commit_seek(plan, 60_000);
    assert_eq!(p.position_at_pause, 50_000);
    assert_eq!(p.playback_started_at, Some(60_000));

    // paused: the seek lands on the fraction and stays paused
    p.pause(60_000);
    let plan = p.plan_seek(750, true).unwrap();
    assert_eq!(plan.target_ms, 150_000);
    assert!(!plan.resume_playing);
    p.commit_seek(plan, 61_000);
    assert_eq!(p.position_at_pause, 150_000);
    assert!(p.playback_started_at.is_none());

    // out-of-range fractions clamp to the ends
    let plan = p.plan_seek(5_000, true).unwrap();
    assert_eq!(plan.target_ms, 200_000);
    let plan = p.plan_seek(-100, true).unwrap();
    assert_eq!(plan.target_ms, 0);
}

#[test]
fn end_of_track_detection() {
    let mut p = AudioPlayer::new();
    p.load_track("/t.mp3", Some(5_000), 0);
    let mut s = PlaybackState::default();
    // queue drained with a path still set: not playing any more
    p.update_state(&mut s, 5_050, false, true);
    assert!(!s.is_playing);
    assert!(is_finished(&s));
    // far from the end the track does not count as finished
    p.update_state(&mut s, 1_000, false, true);
    assert!(!is_finished(&s));
}

#[test]
fn stopped_engine_is_not_finished() {
    let mut p = AudioPlayer::new();
    p.load_track("/t.mp3", Some(5_000), 0);
    p.stop();
    let mut s = PlaybackState::default();
    p.update_state(&mut s, 6_000, false, true);
    // no path: never reported finished
    assert!(!is_finished(&s));
}

#[test]
fn command_ordering() {
    // Play, Pause, Resume, Stop processed in arrival order end stopped.
    let mut p = AudioPlayer::new();
    p.set_volume(321);
    p.load_track("/a.mp3", Some(100_000), 1_000);
    p.pause(2_000);
    p.resume(3_000);
    p.stop();
    assert_eq!(p.current_path, "");
    assert!(p.playback_started_at.is_none());
    assert_eq!(p.position_at_pause, 0);
    assert_eq!(p.volume, 321);
}

#[test]
fn eq_refresh_fraction() {
    let mut p = AudioPlayer::new();
    assert_eq!(p.eq_refresh_fraction(0), None);
    p.load_track("/t.mp3", Some(200_000), 0);
    p.pause(50_000);
    assert_eq!(p.eq_refresh_fraction(50_000), Some(250));
    // a position past the end caps the fraction at full scale
    p.resume(50_000);
    assert_eq!(p.eq_refresh_fraction(500_000), Some(1_000));
}

#[test]
fn availability_reflects_initialization() {
    let mut s = PlaybackState::default();
    assert!(!is_available(&s));
    s.is_initialized = true;
    assert!(is_available(&s));
}

#[test]
fn internal_state_is_unclamped() {
    let mut p = AudioPlayer::new();
    p.load_track("/t.mp3", Some(10_000), 0);
    let s = p.get_state_for_internal(25_000);
    assert_eq!(s.position, 25_000);
    assert_eq!(s.duration, 10_000);
}
