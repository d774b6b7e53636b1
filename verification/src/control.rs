//! The control surface of a session: pause, volume, seek, position, end.

use vstd::prelude::*;

verus! {

/// Loudest volume, in hundredths of full scale.
pub const FULL_VOLUME: u8 = 100;

/// Why a seek did not happen.
#[derive(Clone, Copy, Debug, PartialEq, Eq, Structural)]
pub enum SeekError {
    /// The source cannot be repositioned at all, as with a live stream.
    SeekUnsupported,
    /// The source can seek but refused this target.
    SeekFailed,
}

/// A length of time from the start of a track.
#[derive(Clone, Copy, Debug, PartialEq, Eq, Structural)]
pub struct Span {
    /// Whole seconds.
    pub secs: u64,
    /// Billionths of a second on top of `secs`.
    pub nanos: u32,
}

/// A span in billionths of a second.
pub open spec fn span_nanos(span: Span) -> nat {
    span.secs as nat * 1_000_000_000 + span.nanos as nat
}

/// A span to the nearest whole second, a half counting as a whole, and no
/// more than a position can hold.
pub open spec fn rounded_secs(span: Span) -> u64 {
    let nearest = (span_nanos(span) + 500_000_000) / 1_000_000_000;
    if nearest > u64::MAX {
        u64::MAX
    } else {
        nearest as u64
    }
}

/// The second that lies `step` seconds from `position`, forwards or back,
/// held between zero and what a position can hold.
pub open spec fn stepped(position: u64, step: i64) -> u64 {
    if position + step < 0 {
        0
    } else if position + step > u64::MAX {
        u64::MAX
    } else {
        (position + step) as u64
    }
}

impl Span {
    /// A span of whole seconds.
    pub fn from_secs(secs: u64) -> (span: Span)
        ensures
            span == (Span { secs, nanos: 0 }),
            rounded_secs(span) == secs,
    {
        Span { secs, nanos: 0 }
    }

    /// This span to the nearest whole second.
    pub fn round(&self) -> (secs: u64)
        ensures
            secs == rounded_secs(*self),
    {
        let total: u128 = (self.secs as u128) * 1_000_000_000 + (self.nanos as u128) + 500_000_000;
        let nearest = total / 1_000_000_000;
        if nearest > u64::MAX as u128 {
            u64::MAX
        } else {
            nearest as u64
        }
    }
}

/// The target of a step of `step` seconds from `position`: a step back
/// stops at the start.
pub fn step_from(position: u64, step: i64) -> (target: Span)
    ensures
        target == (Span { secs: stepped(position, step), nanos: 0 }),
{
    let sum: i128 = position as i128 + step as i128;
    let secs = if sum < 0 {
        0
    } else if sum > u64::MAX as i128 {
        u64::MAX
    } else {
        sum as u64
    };
    Span { secs, nanos: 0 }
}

/// A position `secs` seconds on, as far as 64 bits hold it.
pub open spec fn moved_on(position: u64, secs: nat) -> u64 {
    if position + secs > u64::MAX {
        u64::MAX
    } else {
        (position + secs) as u64
    }
}

/// A requested volume held between silence and full scale.
pub open spec fn clamped(volume: int) -> u8 {
    if volume < 0 {
        0
    } else if volume > FULL_VOLUME {
        FULL_VOLUME
    } else {
        volume as u8
    }
}

/// The volume that a session starts at: full scale where none is asked for;
/// what is asked for, from one hundredth to full scale; and for anything else
/// the refused request.
pub open spec fn spec_initial_volume(requested: Option<u16>) -> Result<u8, u16> {
    match requested {
        None => Ok(FULL_VOLUME),
        Some(volume) => if 1 <= volume <= FULL_VOLUME {
            Ok(volume as u8)
        } else {
            Err(volume)
        },
    }
}

/// The volume that a session starts at.
pub fn initial_volume(requested: Option<u16>) -> (r: Result<u8, u16>)
    ensures
        r == spec_initial_volume(requested),
{
    match requested {
        None => Ok(FULL_VOLUME),
        Some(volume) => if 1 <= volume && volume <= FULL_VOLUME as u16 {
            Ok(volume as u8)
        } else {
            Err(volume)
        },
    }
}

/// What a change of volume came to.
#[derive(Clone, Copy, Debug, PartialEq, Eq, Structural)]
pub enum VolumeChange {
    /// The volume was at full scale already and stays there.
    AtMaximum,
    /// The volume was at silence already, or the step was empty, and it stays.
    AtMinimum,
    /// The volume is now this.
    Changed(u8),
}

/// What a step of `delta` does to a volume of `volume`.
pub open spec fn volume_step(volume: u8, delta: i32) -> VolumeChange {
    let next = clamped(volume + delta);
    if next != volume {
        VolumeChange::Changed(next)
    } else if delta > 0 {
        VolumeChange::AtMaximum
    } else {
        VolumeChange::AtMinimum
    }
}

/// The state of the controls, as plain values.
pub struct ControlView {
    /// Output is silenced.
    pub paused: bool,
    /// A seek is under way: the decoder holds still.
    pub seeking: bool,
    /// The stream has ended, or broke beyond repair. Never goes back.
    pub finished: bool,
    /// Volume in hundredths of full scale, `0..=100`.
    pub volume: u8,
    /// Position in whole seconds.
    pub position: u64,
    /// Whether the source can be repositioned.
    pub seekable: bool,
}

/// The controls after a seek to `target` for which the source answered
/// `repositioned`.
pub open spec fn after_seek(c: ControlView, target: Span, repositioned: bool) -> ControlView {
    if c.seekable && repositioned {
        ControlView { position: rounded_secs(target), seeking: false, ..c }
    } else if c.seekable {
        ControlView { seeking: false, ..c }
    } else {
        c
    }
}

/// What a seek returns.
pub open spec fn seek_result(c: ControlView, repositioned: bool) -> Result<(), SeekError> {
    if !c.seekable {
        Err(SeekError::SeekUnsupported)
    } else if !repositioned {
        Err(SeekError::SeekFailed)
    } else {
        Ok(())
    }
}

/// The controls of one session.
pub struct ControlState {
    paused: bool,
    seeking: bool,
    finished: bool,
    volume: u8,
    position: u64,
    seekable: bool,
}

impl View for ControlState {
    type V = ControlView;

    closed spec fn view(&self) -> ControlView {
        ControlView {
            paused: self.paused,
            seeking: self.seeking,
            finished: self.finished,
            volume: self.volume,
            position: self.position,
            seekable: self.seekable,
        }
    }
}

impl ControlState {
    #[verifier::type_invariant]
    closed spec fn inv(self) -> bool {
        self.volume <= FULL_VOLUME
    }

    /// Controls of a fresh session: playing, at the start, at the requested
    /// volume held within range.
    pub fn new(volume: i32, seekable: bool) -> (c: Self)
        ensures
            c@ == (ControlView {
                paused: false,
                seeking: false,
                finished: false,
                volume: clamped(volume as int),
                position: 0,
                seekable,
            }),
    {
        ControlState {
            paused: false,
            seeking: false,
            finished: false,
            volume: clamp_volume(volume),
            position: 0,
            seekable,
        }
    }

    /// Silences the output. Pausing twice is pausing once.
    pub fn pause(&mut self)
        ensures
            final(self)@ == (ControlView { paused: true, ..old(self)@ }),
    {
        proof {
            use_type_invariant(&*self);
        }
        self.paused = true;
    }

    /// Lets the output sound again.
    pub fn resume(&mut self)
        ensures
            final(self)@ == (ControlView { paused: false, ..old(self)@ }),
    {
        proof {
            use_type_invariant(&*self);
        }
        self.paused = false;
    }

    /// Whether the output is silenced.
    pub fn is_paused(&self) -> (b: bool)
        ensures
            b == self@.paused,
    {
        self.paused
    }

    /// Volume in hundredths of full scale.
    pub fn get_volume(&self) -> (volume: u8)
        ensures
            volume == self@.volume,
            volume <= FULL_VOLUME,
    {
        proof {
            use_type_invariant(self);
        }
        self.volume
    }

    /// Sets the volume to `volume` hundredths of full scale, held between
    /// silence and full scale.
    pub fn set_volume(&mut self, volume: i32)
        ensures
            final(self)@ == (ControlView { volume: clamped(volume as int), ..old(self)@ }),
    {
        proof {
            use_type_invariant(&*self);
        }
        self.volume = clamp_volume(volume);
    }

    /// Moves the volume by `delta` hundredths, within range, and says what
    /// came of it: a step that leaves the volume where it was changes nothing.
    pub fn adjust_volume(&mut self, delta: i32) -> (change: VolumeChange)
        ensures
            change == volume_step(old(self)@.volume, delta),
            final(self)@ == (ControlView {
                volume: clamped(old(self)@.volume + delta),
                ..old(self)@
            }),
    {
        proof {
            use_type_invariant(&*self);
        }
        let next = clamp_wide(self.volume as i64 + delta as i64);
        if next == self.volume {
            if delta > 0 {
                VolumeChange::AtMaximum
            } else {
                VolumeChange::AtMinimum
            }
        } else {
            self.volume = next;
            VolumeChange::Changed(next)
        }
    }

    /// Whether a seek is under way.
    pub fn is_seeking(&self) -> (b: bool)
        ensures
            b == self@.seeking,
    {
        self.seeking
    }

    /// Whether the source can be repositioned.
    pub fn is_seekable(&self) -> (b: bool)
        ensures
            b == self@.seekable,
    {
        self.seekable
    }

    /// Whether the stream has ended.
    pub fn is_empty(&self) -> (b: bool)
        ensures
            b == self@.finished,
    {
        self.finished
    }

    /// Position in whole seconds.
    pub fn get_pos(&self) -> (secs: u64)
        ensures
            secs == self@.position,
    {
        self.position
    }

    /// Records the end of the stream. There is no way back.
    pub fn finish(&mut self)
        ensures
            final(self)@ == (ControlView { finished: true, ..old(self)@ }),
    {
        proof {
            use_type_invariant(&*self);
        }
        self.finished = true;
    }

    /// Moves the position on by `secs` whole seconds, as far as a position
    /// can hold. The position never goes back this way.
    pub fn advance(&mut self, secs: u64)
        ensures
            final(self)@ == (ControlView {
                position: moved_on(old(self)@.position, secs as nat),
                ..old(self)@
            }),
            final(self)@.position >= old(self)@.position,
    {
        proof {
            use_type_invariant(&*self);
        }
        self.position = self.position.saturating_add(secs);
    }

    /// Opens a seek to `target`. On a source that cannot seek nothing changes.
    /// Otherwise the decoder is told to hold still, and the answer is the
    /// whole second that the source is to be moved to.
    pub fn begin_seek(&mut self, target: Span) -> (r: Result<u64, SeekError>)
        ensures
            r == if old(self)@.seekable {
                Ok::<u64, SeekError>(rounded_secs(target))
            } else {
                Err::<u64, SeekError>(SeekError::SeekUnsupported)
            },
            final(self)@ == if old(self)@.seekable {
                ControlView { seeking: true, ..old(self)@ }
            } else {
                old(self)@
            },
    {
        proof {
            use_type_invariant(&*self);
        }
        if !self.seekable {
            return Err(SeekError::SeekUnsupported);
        }
        self.seeking = true;
        Ok(target.round())
    }

    /// Closes a seek. Where the source was moved to `reached` seconds, that is
    /// the position from now on; where it refused, the position stays. Either
    /// way the decoder is let go again.
    pub fn end_seek(&mut self, reached: Option<u64>) -> (r: Result<(), SeekError>)
        ensures
            r == match reached {
                Some(_) => Ok::<(), SeekError>(()),
                None => Err::<(), SeekError>(SeekError::SeekFailed),
            },
            final(self)@ == match reached {
                Some(secs) => ControlView { position: secs, seeking: false, ..old(self)@ },
                None => ControlView { seeking: false, ..old(self)@ },
            },
    {
        proof {
            use_type_invariant(&*self);
        }
        self.seeking = false;
        match reached {
            Some(secs) => {
                self.position = secs;
                Ok(())
            },
            None => Err(SeekError::SeekFailed),
        }
    }

    /// A whole seek, given what the source answered when asked to move:
    /// `repositioned` says whether it did.
    ///
    /// On a source that can seek and did, the position is `target` to the
    /// nearest second. In every other case the position is what it was, and
    /// the error says why. Whether the stream has ended is not touched.
    pub fn seek(&mut self, target: Span, repositioned: bool) -> (r: Result<(), SeekError>)
        ensures
            r == seek_result(old(self)@, repositioned),
            final(self)@ == after_seek(old(self)@, target, repositioned),
    {
        match self.begin_seek(target) {
            Ok(secs) => {
                if repositioned {
                    self.end_seek(Some(secs))
                } else {
                    self.end_seek(None)
                }
            },
            Err(e) => Err(e),
        }
    }
}

/// `volume` held between silence and full scale.
pub fn clamp_volume(volume: i32) -> (held: u8)
    ensures
        held == clamped(volume as int),
        held <= FULL_VOLUME,
{
    clamp_wide(volume as i64)
}

fn clamp_wide(volume: i64) -> (held: u8)
    ensures
        held == clamped(volume as int),
        held <= FULL_VOLUME,
{
    if volume < 0 {
        0
    } else if volume > FULL_VOLUME as i64 {
        FULL_VOLUME
    } else {
        volume as u8
    }
}

} // verus!
