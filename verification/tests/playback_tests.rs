use neurokaraoke::playback::{LoopMode, PlaybackState};

const SEC: u64 = 1_000_000_000;

#[test]
fn position_follows_the_clock_while_playing() {
    let s = PlaybackState::new(180 * SEC, 7, true, 1_000 * SEC);
    assert_eq!(s.position(1_000 * SEC), 0);
    assert_eq!(s.position(1_030 * SEC), 30 * SEC);
    assert!(!s.paused());
    assert_eq!(s.song(), 7);
    assert_eq!(s.duration(), 180 * SEC);
}

#[test]
fn position_is_capped_at_the_duration() {
    let s = PlaybackState::new(10 * SEC, 1, true, 0);
    assert_eq!(s.position(25 * SEC), 10 * SEC);
    assert!(s.finished(25 * SEC));
    assert!(!s.finished(5 * SEC));
}

#[test]
fn a_paused_start_stays_at_zero() {
    let s = PlaybackState::new(60 * SEC, 2, false, 100 * SEC);
    assert!(s.paused());
    assert_eq!(s.position(150 * SEC), 0);
    assert!(!s.finished(1_000 * SEC));
}

#[test]
fn pause_freezes_and_play_resumes_the_position() {
    let mut s = PlaybackState::new(300 * SEC, 3, true, 0);
    s.pause(40 * SEC);
    assert!(s.paused());
    assert_eq!(s.position(90 * SEC), 40 * SEC);
    s.pause(95 * SEC);
    assert_eq!(s.position(99 * SEC), 40 * SEC);
    s.play(100 * SEC);
    assert!(!s.paused());
    assert_eq!(s.position(100 * SEC), 40 * SEC);
    assert_eq!(s.position(110 * SEC), 50 * SEC);
}

#[test]
fn seek_moves_the_position() {
    let mut s = PlaybackState::new(200 * SEC, 4, true, 0);
    s.seek(120 * SEC, 150 * SEC);
    assert_eq!(s.position(150 * SEC), 120 * SEC);
    assert_eq!(s.position(160 * SEC), 130 * SEC);
    s.seek(500 * SEC, 600 * SEC);
    assert_eq!(s.position(600 * SEC), 200 * SEC);
}

#[test]
fn seek_while_paused_keeps_the_pause() {
    let mut s = PlaybackState::new(200 * SEC, 4, true, 0);
    s.pause(50 * SEC);
    s.seek(20 * SEC, 70 * SEC);
    assert!(s.paused());
    assert_eq!(s.position(90 * SEC), 20 * SEC);
}

#[test]
fn loop_mode_defaults_to_off() {
    assert_eq!(LoopMode::default(), LoopMode::Off);
}

#[test]
fn seeking_past_the_clock_epoch() {
    let mut s = PlaybackState::new(300 * SEC, 5, true, 30 * SEC);
    s.seek(180 * SEC, 30 * SEC);
    assert_eq!(s.position(30 * SEC), 180 * SEC);
    assert_eq!(s.position(40 * SEC), 190 * SEC);
    s.pause(10 * SEC);
    s.play(0);
    assert!(!s.paused());
}
