use minau::control::{Span, VolumeChange};
use minau::input::{
    command_for, Command, Feedback, Key, POLL_INTERVAL_MS, SEEK_STEP_SECS, VOLUME_STEP,
};
use minau::play::MusicPlay;
use minau::remote::UrlPlayer;
use minau::source::{Player, Selection};

#[test]
fn keys_ask_for_commands() {
    assert_eq!(command_for(Key::Char('q'), true), Some(Command::Quit));
    assert_eq!(command_for(Key::Char('>'), true), Some(Command::Next));
    assert_eq!(command_for(Key::Right, true), Some(Command::Next));
    assert_eq!(command_for(Key::Char(' '), true), Some(Command::TogglePause));
    for c in ['+', '=', 'k'] {
        assert_eq!(command_for(Key::Char(c), true), Some(Command::VolumeUp));
    }
    for c in ['-', '_', 'j'] {
        assert_eq!(command_for(Key::Char(c), true), Some(Command::VolumeDown));
    }
    assert_eq!(command_for(Key::Char('l'), true), Some(Command::SeekForward));
    assert_eq!(command_for(Key::Char('h'), true), Some(Command::SeekBackward));
    assert_eq!(command_for(Key::Char('x'), true), Some(Command::Unknown('x')));
    assert_eq!(command_for(Key::Char('Q'), true), Some(Command::Unknown('Q')));
    assert_eq!(command_for(Key::Other, true), None);
}

#[test]
fn a_key_that_does_not_go_down_asks_for_nothing() {
    assert_eq!(command_for(Key::Char('q'), false), None);
    assert_eq!(command_for(Key::Right, false), None);
    assert_eq!(command_for(Key::Other, false), None);
}

#[test]
fn steps_are_five() {
    assert_eq!(VOLUME_STEP, 5);
    assert_eq!(SEEK_STEP_SECS, 5);
    assert_eq!(POLL_INTERVAL_MS, 100);
}

fn session() -> MusicPlay<f32> {
    Player { track_id: 0, sample_rate: 48000, channels: 2, path: "a".to_string() }.play(48000)
}

#[test]
fn session_carries_out_commands() {
    let mut s = session();
    assert_eq!(s.handle(Command::TogglePause), Feedback::Paused);
    assert!(s.is_paused());
    assert_eq!(s.handle(Command::TogglePause), Feedback::Resumed);
    assert!(!s.is_paused());
    assert_eq!(s.handle(Command::VolumeUp), Feedback::Volume(VolumeChange::AtMaximum));
    assert_eq!(s.handle(Command::VolumeDown), Feedback::Volume(VolumeChange::Changed(95)));
    assert_eq!(s.get_volume(), 95);
    assert_eq!(s.handle(Command::Quit), Feedback::Quit);
    assert_eq!(s.handle(Command::Next), Feedback::Next);
    assert_eq!(s.handle(Command::Unknown('z')), Feedback::Unknown('z'));
    assert_eq!(s.get_volume(), 95);
    assert!(!s.is_paused());
}

#[test]
fn seek_keys_name_their_target() {
    let mut s = session();
    assert_eq!(
        s.handle(Command::SeekBackward),
        Feedback::Seek { from: 0, target: Span::from_secs(0) }
    );
    assert_eq!(
        s.handle(Command::SeekForward),
        Feedback::Seek { from: 0, target: Span::from_secs(5) }
    );
    assert_eq!(s.get_pos(), 0);
    s.seek(Span::from_secs(12), true).unwrap();
    assert_eq!(
        s.handle(Command::SeekBackward),
        Feedback::Seek { from: 12, target: Span::from_secs(7) }
    );
    assert_eq!(
        s.handle(Command::SeekForward),
        Feedback::Seek { from: 12, target: Span::from_secs(17) }
    );
    s.seek(Span::from_secs(3), true).unwrap();
    assert_eq!(
        s.handle(Command::SeekBackward),
        Feedback::Seek { from: 3, target: Span::from_secs(0) }
    );
}

#[test]
fn stream_carries_out_commands_but_seeks_nowhere() {
    let chosen = Selection { track_id: 0, sample_rate: 44100, channels: 2 };
    let mut p: UrlPlayer<f32> = UrlPlayer::new(chosen, 48000, 3, None);
    assert_eq!(p.handle(Command::SeekForward), Feedback::SeekUnsupported);
    assert_eq!(p.handle(Command::SeekBackward), Feedback::SeekUnsupported);
    assert_eq!(p.handle(Command::TogglePause), Feedback::Paused);
    assert_eq!(p.handle(Command::TogglePause), Feedback::Resumed);
    assert_eq!(p.handle(Command::VolumeDown), Feedback::Volume(VolumeChange::Changed(0)));
    assert_eq!(p.handle(Command::VolumeDown), Feedback::Volume(VolumeChange::AtMinimum));
    assert_eq!(p.handle(Command::VolumeUp), Feedback::Volume(VolumeChange::Changed(5)));
    assert_eq!(p.handle(Command::Quit), Feedback::Quit);
    assert_eq!(p.handle(Command::Next), Feedback::Next);
    assert_eq!(p.handle(Command::Unknown('?')), Feedback::Unknown('?'));
}
