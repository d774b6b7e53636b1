//! What a key means, and what a session makes of it.

use vstd::prelude::*;
use crate::control::ControlView;
use crate::control::Span;
use crate::control::VolumeChange;
use crate::control::clamped;
use crate::control::step_from;
use crate::control::stepped;
use crate::control::volume_step;
use crate::play::MusicPlay;
use crate::play::MusicPlayView;
use crate::remote::UrlPlayer;
use crate::remote::UrlPlayerView;

verus! {

/// Step of the volume keys, in hundredths of full scale.
pub const VOLUME_STEP: i32 = 5;

/// Step of the seek keys, in seconds.
pub const SEEK_STEP_SECS: i64 = 5;

/// Time between two looks at the keyboard, in thousandths of a second.
pub const POLL_INTERVAL_MS: u64 = 100;

/// A key, as far as keys are told apart.
#[derive(Clone, Copy, Debug, PartialEq, Eq, Structural)]
pub enum Key {
    /// A key that types a character.
    Char(char),
    /// The arrow to the right.
    Right,
    /// Any other key.
    Other,
}

/// What the listener asks for.
#[derive(Clone, Copy, Debug, PartialEq, Eq, Structural)]
pub enum Command {
    /// Leave the program.
    Quit,
    /// Go on to the next track.
    Next,
    /// Pause if playing, resume if paused.
    TogglePause,
    /// One step louder.
    VolumeUp,
    /// One step softer.
    VolumeDown,
    /// One step ahead in the track.
    SeekForward,
    /// One step back in the track.
    SeekBackward,
    /// A character that asks for nothing.
    Unknown(char),
}

/// What a key asks for. Only a key that goes down asks for anything.
pub open spec fn command_of(key: Key, pressed: bool) -> Option<Command> {
    if !pressed {
        None
    } else {
        match key {
            Key::Right => Some(Command::Next),
            Key::Other => None,
            Key::Char(c) => Some(
                if c == 'q' {
                    Command::Quit
                } else if c == '>' {
                    Command::Next
                } else if c == ' ' {
                    Command::TogglePause
                } else if c == '+' || c == '=' || c == 'k' {
                    Command::VolumeUp
                } else if c == '-' || c == '_' || c == 'j' {
                    Command::VolumeDown
                } else if c == 'l' {
                    Command::SeekForward
                } else if c == 'h' {
                    Command::SeekBackward
                } else {
                    Command::Unknown(c)
                },
            ),
        }
    }
}

/// What a key asks for.
pub fn command_for(key: Key, pressed: bool) -> (command: Option<Command>)
    ensures
        command == command_of(key, pressed),
{
    if !pressed {
        return None;
    }
    match key {
        Key::Right => Some(Command::Next),
        Key::Other => None,
        Key::Char(c) => Some(
            if c == 'q' {
                Command::Quit
            } else if c == '>' {
                Command::Next
            } else if c == ' ' {
                Command::TogglePause
            } else if c == '+' || c == '=' || c == 'k' {
                Command::VolumeUp
            } else if c == '-' || c == '_' || c == 'j' {
                Command::VolumeDown
            } else if c == 'l' {
                Command::SeekForward
            } else if c == 'h' {
                Command::SeekBackward
            } else {
                Command::Unknown(c)
            },
        ),
    }
}

/// What came of a command, for the listener to act on and to report.
#[derive(Clone, Copy, Debug, PartialEq, Eq, Structural)]
pub enum Feedback {
    /// The program is to end.
    Quit,
    /// This track is to end.
    Next,
    /// Playback is paused now.
    Paused,
    /// Playback goes on now.
    Resumed,
    /// What came of a volume key.
    Volume(VolumeChange),
    /// A seek from `from` seconds to `target` is to be made.
    Seek { from: u64, target: Span },
    /// This source cannot seek.
    SeekUnsupported,
    /// The character asks for nothing.
    Unknown(char),
}

/// The controls after a command.
pub open spec fn controls_after(c: ControlView, command: Command) -> ControlView {
    match command {
        Command::TogglePause => ControlView { paused: !c.paused, ..c },
        Command::VolumeUp => ControlView { volume: clamped(c.volume + VOLUME_STEP), ..c },
        Command::VolumeDown => ControlView { volume: clamped(c.volume - VOLUME_STEP), ..c },
        _ => c,
    }
}

/// What a session that can seek answers to a command.
pub open spec fn feedback_to(c: ControlView, command: Command) -> Feedback {
    match command {
        Command::Quit => Feedback::Quit,
        Command::Next => Feedback::Next,
        Command::TogglePause => if c.paused {
            Feedback::Resumed
        } else {
            Feedback::Paused
        },
        Command::VolumeUp => Feedback::Volume(volume_step(c.volume, VOLUME_STEP)),
        Command::VolumeDown => Feedback::Volume(volume_step(c.volume, (-VOLUME_STEP) as i32)),
        Command::SeekForward => Feedback::Seek {
            from: c.position,
            target: Span { secs: stepped(c.position, SEEK_STEP_SECS), nanos: 0 },
        },
        Command::SeekBackward => Feedback::Seek {
            from: c.position,
            target: Span { secs: stepped(c.position, (-SEEK_STEP_SECS) as i64), nanos: 0 },
        },
        Command::Unknown(c) => Feedback::Unknown(c),
    }
}

/// What a stream answers to a command: as a session that can seek, but that
/// it seeks nowhere.
pub open spec fn stream_feedback_to(c: ControlView, command: Command) -> Feedback {
    match command {
        Command::SeekForward => Feedback::SeekUnsupported,
        Command::SeekBackward => Feedback::SeekUnsupported,
        _ => feedback_to(c, command),
    }
}

impl<T: Copy> MusicPlay<T> {
    /// Carries out a command as far as the controls go, and says what came
    /// of it. A seek is answered with its target; making it is left to the
    /// caller, who has the source.
    pub fn handle(&mut self, command: Command) -> (feedback: Feedback)
        ensures
            feedback == feedback_to(old(self)@.control, command),
            final(self)@ == (MusicPlayView {
                control: controls_after(old(self)@.control, command),
                ..old(self)@
            }),
    {
        match command {
            Command::Quit => Feedback::Quit,
            Command::Next => Feedback::Next,
            Command::TogglePause => {
                if self.is_paused() {
                    self.resume();
                    Feedback::Resumed
                } else {
                    self.pause();
                    Feedback::Paused
                }
            },
            Command::VolumeUp => Feedback::Volume(self.adjust_volume(VOLUME_STEP)),
            Command::VolumeDown => Feedback::Volume(self.adjust_volume(-VOLUME_STEP)),
            Command::SeekForward => {
                let from = self.get_pos();
                Feedback::Seek { from, target: step_from(from, SEEK_STEP_SECS) }
            },
            Command::SeekBackward => {
                let from = self.get_pos();
                Feedback::Seek { from, target: step_from(from, -SEEK_STEP_SECS) }
            },
            Command::Unknown(c) => Feedback::Unknown(c),
        }
    }
}

impl<T: Copy> UrlPlayer<T> {
    /// Carries out a command as far as the controls go, and says what came
    /// of it.
    pub fn handle(&mut self, command: Command) -> (feedback: Feedback)
        ensures
            feedback == stream_feedback_to(old(self)@.control, command),
            final(self)@ == (UrlPlayerView {
                control: controls_after(old(self)@.control, command),
                ..old(self)@
            }),
    {
        match command {
            Command::Quit => Feedback::Quit,
            Command::Next => Feedback::Next,
            Command::TogglePause => {
                if self.is_paused() {
                    self.resume();
                    Feedback::Resumed
                } else {
                    self.pause();
                    Feedback::Paused
                }
            },
            Command::VolumeUp => Feedback::Volume(self.adjust_volume(VOLUME_STEP)),
            Command::VolumeDown => Feedback::Volume(self.adjust_volume(-VOLUME_STEP)),
            Command::SeekForward => Feedback::SeekUnsupported,
            Command::SeekBackward => Feedback::SeekUnsupported,
            Command::Unknown(c) => Feedback::Unknown(c),
        }
    }
}

} // verus!
