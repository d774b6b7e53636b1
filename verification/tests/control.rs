use minau::control::{
    clamp_volume, initial_volume, step_from, ControlState, SeekError, Span, VolumeChange,
    FULL_VOLUME,
};

#[test]
fn stored_volume_is_the_request_held_in_range() {
    let mut c = ControlState::new(100, true);
    for (asked, stored) in [
        (0, 0u8),
        (1, 1),
        (50, 50),
        (100, 100),
        (101, 100),
        (-1, 0),
        (i32::MAX, 100),
        (i32::MIN, 0),
    ] {
        c.set_volume(asked);
        assert_eq!(c.get_volume(), stored);
        assert_eq!(clamp_volume(asked), stored);
    }
    assert_eq!(ControlState::new(250, true).get_volume(), FULL_VOLUME);
    assert_eq!(ControlState::new(-3, false).get_volume(), 0);
}

#[test]
fn fresh_controls_play_from_the_start() {
    let c = ControlState::new(70, true);
    assert!(!c.is_paused());
    assert!(!c.is_seeking());
    assert!(!c.is_empty());
    assert!(c.is_seekable());
    assert_eq!(c.get_pos(), 0);
    assert_eq!(c.get_volume(), 70);
}

#[test]
fn pause_and_resume_are_idempotent() {
    let mut c = ControlState::new(100, true);
    c.pause();
    assert!(c.is_paused());
    c.pause();
    assert!(c.is_paused());
    c.resume();
    assert!(!c.is_paused());
    c.resume();
    assert!(!c.is_paused());
}

#[test]
fn volume_steps_stop_at_the_bounds() {
    let mut c = ControlState::new(95, true);
    assert_eq!(c.adjust_volume(5), VolumeChange::Changed(100));
    assert_eq!(c.adjust_volume(5), VolumeChange::AtMaximum);
    assert_eq!(c.get_volume(), 100);
    assert_eq!(c.adjust_volume(-5), VolumeChange::Changed(95));
    c.set_volume(3);
    assert_eq!(c.adjust_volume(-5), VolumeChange::Changed(0));
    assert_eq!(c.adjust_volume(-5), VolumeChange::AtMinimum);
    assert_eq!(c.adjust_volume(0), VolumeChange::AtMinimum);
    assert_eq!(c.adjust_volume(i32::MAX), VolumeChange::Changed(100));
    assert_eq!(c.adjust_volume(i32::MIN), VolumeChange::Changed(0));
}

#[test]
fn initial_volume_is_one_to_hundred() {
    assert_eq!(initial_volume(None), Ok(100));
    assert_eq!(initial_volume(Some(1)), Ok(1));
    assert_eq!(initial_volume(Some(100)), Ok(100));
    assert_eq!(initial_volume(Some(0)), Err(0));
    assert_eq!(initial_volume(Some(101)), Err(101));
    assert_eq!(initial_volume(Some(u16::MAX)), Err(u16::MAX));
}

#[test]
fn spans_round_to_the_nearest_second() {
    assert_eq!(Span { secs: 7, nanos: 0 }.round(), 7);
    assert_eq!(Span { secs: 7, nanos: 499_999_999 }.round(), 7);
    assert_eq!(Span { secs: 7, nanos: 500_000_000 }.round(), 8);
    assert_eq!(Span { secs: 7, nanos: 999_999_999 }.round(), 8);
    assert_eq!(Span { secs: 0, nanos: 1_500_000_000 }.round(), 2);
    assert_eq!(Span { secs: u64::MAX, nanos: 999_999_999 }.round(), u64::MAX);
    assert_eq!(Span::from_secs(12), Span { secs: 12, nanos: 0 });
}

#[test]
fn steps_back_stop_at_the_start() {
    assert_eq!(step_from(12, -5), Span::from_secs(7));
    assert_eq!(step_from(3, -5), Span::from_secs(0));
    assert_eq!(step_from(0, -5), Span::from_secs(0));
    assert_eq!(step_from(3, 5), Span::from_secs(8));
    assert_eq!(step_from(u64::MAX - 1, 5), Span::from_secs(u64::MAX));
    assert_eq!(step_from(5, i64::MIN), Span::from_secs(0));
}

#[test]
fn seek_on_a_seekable_source_sets_the_position() {
    let mut c = ControlState::new(100, true);
    assert_eq!(c.seek(Span { secs: 42, nanos: 600_000_000 }, true), Ok(()));
    assert_eq!(c.get_pos(), 43);
    assert!(!c.is_seeking());
    assert!(!c.is_empty());
    assert_eq!(c.seek(Span::from_secs(0), true), Ok(()));
    assert_eq!(c.get_pos(), 0);
}

#[test]
fn refused_seek_keeps_the_position() {
    let mut c = ControlState::new(100, true);
    c.advance(30);
    assert_eq!(c.seek(Span::from_secs(99), false), Err(SeekError::SeekFailed));
    assert_eq!(c.get_pos(), 30);
    assert!(!c.is_seeking());
}

#[test]
fn seek_on_a_source_that_cannot_seek_changes_nothing() {
    let mut c = ControlState::new(100, false);
    c.advance(30);
    c.pause();
    assert_eq!(c.seek(Span::from_secs(5), true), Err(SeekError::SeekUnsupported));
    assert_eq!(c.begin_seek(Span::from_secs(5)), Err(SeekError::SeekUnsupported));
    assert_eq!(c.get_pos(), 30);
    assert!(!c.is_seeking());
    assert!(c.is_paused());
}

#[test]
fn seek_in_two_steps_holds_the_decoder_in_between() {
    let mut c = ControlState::new(100, true);
    assert_eq!(c.begin_seek(Span { secs: 9, nanos: 500_000_000 }), Ok(10));
    assert!(c.is_seeking());
    assert_eq!(c.get_pos(), 0);
    assert_eq!(c.end_seek(Some(10)), Ok(()));
    assert!(!c.is_seeking());
    assert_eq!(c.get_pos(), 10);
    assert_eq!(c.begin_seek(Span::from_secs(20)), Ok(20));
    assert_eq!(c.end_seek(None), Err(SeekError::SeekFailed));
    assert!(!c.is_seeking());
    assert_eq!(c.get_pos(), 10);
}

#[test]
fn position_only_moves_on() {
    let mut c = ControlState::new(100, true);
    c.advance(3);
    c.advance(0);
    assert_eq!(c.get_pos(), 3);
    c.advance(u64::MAX);
    assert_eq!(c.get_pos(), u64::MAX);
    c.advance(1);
    assert_eq!(c.get_pos(), u64::MAX);
}

#[test]
fn end_of_stream_is_final() {
    let mut c = ControlState::new(100, true);
    c.finish();
    assert!(c.is_empty());
    c.pause();
    c.resume();
    c.set_volume(10);
    let _ = c.seek(Span::from_secs(3), true);
    c.finish();
    assert!(c.is_empty());
}
