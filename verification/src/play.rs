//! A session that plays a seekable source: the controls, the decoder's side
//! of the sample path with its rate conversion, and the output side.
//!
//! The session does no waiting and no decoding of its own. Whoever runs it
//! asks [`MusicPlay::next_action`] what is due, does the outside work, and
//! hands the outcome back.

use vstd::prelude::*;
use vstd::arithmetic::div_mod::lemma_fundamental_div_mod;
use vstd::arithmetic::div_mod::lemma_mod_pos_bound;
use crate::control::ControlState;
use crate::control::ControlView;
use crate::control::SeekError;
use crate::control::Span;
use crate::control::VolumeChange;
use crate::control::after_seek;
use crate::control::clamped;
use crate::control::moved_on;
use crate::control::rounded_secs;
use crate::control::seek_result;
use crate::control::volume_step;
use crate::resample::ChunkQueue;
use crate::resample::ChunkQueueView;
use crate::resample::acceptable;
use crate::resample::after_accept;
use crate::resample::after_tail;
use crate::resample::chunk_len;
use crate::resample::chunk_ready;
use crate::resample::needs_resampling;
use crate::resample::planar_of;
use crate::resample::rows_of;
use crate::resample::spec_needs_resampling;
use crate::resample::tail_accepted;
use crate::resample::tail_frames;
use crate::resample::tail_waiting;
use crate::source::Player;
use crate::transport::Transport;
use crate::transport::TransportView;
use crate::transport::after_render;
use crate::transport::drained;
use crate::transport::free_slots;
use crate::transport::lemma_pump_bounds;
use crate::transport::pumped;
use crate::transport::rendered;
use crate::transport::sound;

verus! {

/// Free slots of the ring that the decoder leaves untouched.
pub const HEADROOM: usize = 2048;

/// Frames per chunk handed to the rate converter.
pub const CHUNK_FRAMES: usize = 1024;

/// What the decoder's side of a session is to do next.
#[derive(Clone, Copy, Debug, PartialEq, Eq, Structural)]
pub enum Action {
    /// Nothing is left to do: leave.
    Stop,
    /// A seek is under way: wait, ask again.
    AwaitSeek,
    /// The ring has room and the last packet is used up: decode the next.
    Decode,
    /// The ring has room and samples are waiting: pump.
    Push,
    /// The ring is filled up to the headroom: rest a moment.
    Rest,
    /// The source has ended and the converter's queue is not empty: convert
    /// what is left, the last short chunk too, and close the packet.
    Flush,
}

/// Whole seconds that `count` more samples complete, `sub` samples into a
/// second of `per_second` samples.
pub open spec fn whole_seconds(sub: nat, count: nat, per_second: nat) -> nat {
    (sub + count) / per_second
}

/// Samples into the second that is then under way.
pub open spec fn left_over(sub: nat, count: nat, per_second: nat) -> nat {
    (sub + count) % per_second
}

/// Counts samples into whole seconds.
pub struct SecondCounter {
    per_second: u64,
    sub: u64,
}

impl SecondCounter {
    #[verifier::type_invariant]
    closed spec fn inv(self) -> bool {
        self.sub < self.per_second
    }

    /// Samples per second.
    pub closed spec fn spec_per_second(&self) -> nat {
        self.per_second as nat
    }

    /// Samples counted since the last whole second.
    pub closed spec fn spec_sub(&self) -> nat {
        self.sub as nat
    }

    /// A counter at a whole second, for `per_second` samples a second.
    pub fn new(per_second: u64) -> (counter: Self)
        requires
            per_second > 0,
        ensures
            counter.spec_per_second() == per_second,
            counter.spec_sub() == 0,
    {
        SecondCounter { per_second, sub: 0 }
    }

    /// Samples per second.
    pub fn per_second(&self) -> (n: u64)
        ensures
            n == self.spec_per_second(),
            n > 0,
            self.spec_sub() < n,
    {
        proof {
            use_type_invariant(self);
        }
        self.per_second
    }

    /// Counts `count` more samples and returns the whole seconds that they
    /// complete.
    pub fn advance(&mut self, count: usize) -> (whole: u64)
        ensures
            final(self).spec_per_second() == old(self).spec_per_second(),
            final(self).spec_sub() == left_over(
                old(self).spec_sub(),
                count as nat,
                old(self).spec_per_second(),
            ),
            whole == whole_seconds(old(self).spec_sub(), count as nat, old(self).spec_per_second()),
    {
        proof {
            use_type_invariant(&*self);
            let total = (self.sub + count) as int;
            let per = self.per_second as int;
            lemma_fundamental_div_mod(total, per);
            lemma_mod_pos_bound(total, per);
            assert(total / per <= count) by (nonlinear_arith)
                requires
                    total == per * (total / per) + total % per,
                    0 <= total % per,
                    total < per + count,
                    per >= 1,
            ;
        }
        let total: u128 = self.sub as u128 + count as u128;
        let whole = total / (self.per_second as u128);
        self.sub = (total % (self.per_second as u128)) as u64;
        whole as u64
    }

    /// Starts over at a whole second.
    pub fn restart(&mut self)
        ensures
            final(self).spec_per_second() == old(self).spec_per_second(),
            final(self).spec_sub() == 0,
    {
        proof {
            use_type_invariant(&*self);
        }
        self.sub = 0;
    }
}

/// A session, as plain values.
pub struct MusicPlayView<T> {
    pub control: ControlView,
    pub transport: TransportView<T>,
    /// The rate converter's queue, where the source's rate is not the
    /// device's and a converter is at hand.
    pub queue: Option<ChunkQueueView<T>>,
    /// Samples that the device takes in a second: its frames per second
    /// times its channels.
    pub per_second: nat,
    /// Samples that the device has taken since the position last changed.
    pub sub: nat,
    /// The source has been read to its end.
    pub ended: bool,
    /// The track whose packets are decoded.
    pub track_id: u32,
}

/// Whether everything that was decoded has reached the ring: no sample waits
/// for the ring, none for the converter, none in the converter's output.
pub open spec fn all_pumped<T>(s: MusicPlayView<T>) -> bool {
    &&& s.transport.index >= s.transport.pending.len()
    &&& match s.queue {
        Some(q) => q.backlog.len() == 0 && q.output.len() == 0,
        None => true,
    }
}

/// The session once it has been seen whether it is over: it is when the
/// source has ended and everything decoded has reached the ring. A seek under
/// way puts the question off.
pub open spec fn settled<T>(s: MusicPlayView<T>) -> MusicPlayView<T> {
    if s.ended && !s.control.seeking && all_pumped(s) {
        MusicPlayView { control: ControlView { finished: true, ..s.control }, ..s }
    } else {
        s
    }
}

/// What is due on the decoder's side.
pub open spec fn due<T>(s: MusicPlayView<T>) -> Action {
    if s.control.finished {
        Action::Stop
    } else if s.control.seeking {
        Action::AwaitSeek
    } else if free_slots(s.transport) <= s.transport.headroom {
        Action::Rest
    } else if s.transport.index < s.transport.pending.len() {
        Action::Push
    } else if !s.ended {
        Action::Decode
    } else if !all_pumped(s) {
        Action::Flush
    } else {
        Action::Stop
    }
}

/// The session that `player` starts on a device of `device_rate` frames per
/// second: playing from the start at full volume, with a ring of one second
/// of samples, and a converter's queue where the rates differ.
pub open spec fn started<T>(player: Player, device_rate: u32) -> MusicPlayView<T> {
    MusicPlayView {
        control: ControlView {
            paused: false,
            seeking: false,
            finished: false,
            volume: 100,
            position: 0,
            seekable: true,
        },
        transport: TransportView {
            queued: Seq::empty(),
            capacity: device_rate as nat,
            pending: Seq::empty(),
            index: 0,
            channels: player.channels as nat,
            headroom: HEADROOM as nat,
        },
        queue: if spec_needs_resampling(player.sample_rate, device_rate) {
            Some(
                ChunkQueueView {
                    backlog: Seq::empty(),
                    output: Seq::empty(),
                    frames: CHUNK_FRAMES as nat,
                    channels: player.channels as nat,
                },
            )
        } else {
            None
        },
        per_second: device_rate as nat * player.channels as nat,
        sub: 0,
        ended: false,
        track_id: player.track_id,
    }
}

/// The session after a packet was decoded to `samples`: they wait for the
/// converter where there is one, and for the ring as they are where there is
/// none.
pub open spec fn after_decoded<T>(s: MusicPlayView<T>, samples: Seq<T>) -> MusicPlayView<T> {
    settled(
        match s.queue {
            Some(q) => MusicPlayView {
                queue: Some(ChunkQueueView { backlog: q.backlog + samples, ..q }),
                ..s
            },
            None => MusicPlayView {
                transport: TransportView { pending: samples, index: 0, ..s.transport },
                ..s
            },
        },
    )
}

/// The session after the converter's answer to the next chunk was offered.
pub open spec fn after_chunk<T>(s: MusicPlayView<T>, resampled: Seq<Seq<T>>) -> MusicPlayView<T> {
    match s.queue {
        Some(q) => settled(MusicPlayView { queue: Some(after_accept(q, resampled)), ..s }),
        None => s,
    }
}

/// The session after the converter's answer to the tail was offered: whether
/// or not the answer was taken, nothing is left for the converter.
pub open spec fn after_tail_chunk<T>(s: MusicPlayView<T>, resampled: Seq<Seq<T>>) -> MusicPlayView<
    T,
> {
    match s.queue {
        Some(q) => if s.ended {
            settled(MusicPlayView { queue: Some(after_tail(q, resampled)), ..s })
        } else {
            s
        },
        None => s,
    }
}

/// The session once a packet has been through the converter: what the
/// converter made of it waits for the ring.
pub open spec fn after_packet<T>(s: MusicPlayView<T>) -> MusicPlayView<T> {
    match s.queue {
        Some(q) => settled(
            MusicPlayView {
                queue: Some(ChunkQueueView { output: Seq::empty(), ..q }),
                transport: TransportView { pending: q.output, index: 0, ..s.transport },
                ..s
            },
        ),
        None => s,
    }
}

/// The session after the source was read to its end.
pub open spec fn after_end<T>(s: MusicPlayView<T>) -> MusicPlayView<T> {
    settled(MusicPlayView { ended: true, ..s })
}

/// The session after one pump. Where a pump is due, waiting samples move
/// into the ring; where the source has ended and these were the last, the
/// session is over. Where none is due, nothing changes.
pub open spec fn after_pump<T>(s: MusicPlayView<T>) -> MusicPlayView<T> {
    if due(s) == Action::Push {
        settled(MusicPlayView { transport: pumped(s.transport), ..s })
    } else {
        s
    }
}

/// The session after the output took `want` samples: what it took of the ring
/// is counted into the position, a second at a time. While paused it takes
/// nothing, and the position stands.
pub open spec fn after_output<T>(s: MusicPlayView<T>, want: nat) -> MusicPlayView<T> {
    let taken = drained(s.transport, want, s.control.paused);
    MusicPlayView {
        transport: after_render(s.transport, want, s.control.paused),
        control: ControlView {
            position: moved_on(s.control.position, whole_seconds(s.sub, taken, s.per_second)),
            ..s.control
        },
        sub: left_over(s.sub, taken, s.per_second),
        ..s
    }
}

/// The session after a seek was opened: on a source that can seek, the
/// decoder is held. Nothing is lost yet.
pub open spec fn after_begin_seek<T>(s: MusicPlayView<T>) -> MusicPlayView<T> {
    if s.control.seekable {
        MusicPlayView { control: ControlView { seeking: true, ..s.control }, ..s }
    } else {
        s
    }
}

/// The session after a seek was closed. With the source moved to `reached`,
/// that is the position, what was decoded before is dropped, and the source
/// has not ended any more. With the source unmoved, the decoder is let go and
/// nothing else changes.
pub open spec fn after_end_seek<T>(s: MusicPlayView<T>, reached: Option<u64>) -> MusicPlayView<T> {
    match reached {
        Some(secs) => MusicPlayView {
            control: ControlView { position: secs, seeking: false, ..s.control },
            transport: TransportView { pending: Seq::empty(), index: 0, ..s.transport },
            queue: match s.queue {
                Some(q) => Some(
                    ChunkQueueView { backlog: Seq::empty(), output: Seq::empty(), ..q },
                ),
                None => None,
            },
            sub: 0,
            ended: false,
            ..s
        },
        None => settled(
            MusicPlayView { control: ControlView { seeking: false, ..s.control }, ..s },
        ),
    }
}

/// The session after a whole seek.
pub open spec fn after_whole_seek<T>(
    s: MusicPlayView<T>,
    target: Span,
    repositioned: bool,
) -> MusicPlayView<T> {
    if !s.control.seekable {
        s
    } else if repositioned {
        after_end_seek(after_begin_seek(s), Some(rounded_secs(target)))
    } else {
        after_end_seek(after_begin_seek(s), None)
    }
}

/// A session that plays a seekable source.
pub struct MusicPlay<T: Copy> {
    control: ControlState,
    transport: Transport<T>,
    queue: Option<ChunkQueue<T>>,
    counter: SecondCounter,
    ended: bool,
    track_id: u32,
}

impl<T: Copy> View for MusicPlay<T> {
    type V = MusicPlayView<T>;

    closed spec fn view(&self) -> MusicPlayView<T> {
        MusicPlayView {
            control: self.control@,
            transport: self.transport@,
            queue: match self.queue {
                Some(q) => Some(q@),
                None => None,
            },
            per_second: self.counter.spec_per_second(),
            sub: self.counter.spec_sub(),
            ended: self.ended,
            track_id: self.track_id,
        }
    }
}

impl Player {
    /// Starts a session on a device of `device_rate` frames per second.
    pub fn play<T: Copy>(self, device_rate: u32) -> (session: MusicPlay<T>)
        requires
            self.channels > 0,
            device_rate > 0,
        ensures
            session@ == started::<T>(self, device_rate),
    {
        let channels = self.channels as usize;
        let queue = if needs_resampling(self.sample_rate, device_rate) {
            ChunkQueue::new(CHUNK_FRAMES, channels)
        } else {
            None
        };
        assert(CHUNK_FRAMES * channels <= 1024 * 0xffff && device_rate * self.channels
            <= 0xffff_ffff * 0xffff && device_rate * self.channels > 0) by (nonlinear_arith)
            requires
                CHUNK_FRAMES == 1024,
                channels == self.channels,
                0 < self.channels <= 0xffff,
                0 < device_rate <= 0xffff_ffff,
        ;
        MusicPlay {
            control: ControlState::new(100, true),
            transport: Transport::new(device_rate as usize, channels, HEADROOM),
            queue,
            counter: SecondCounter::new(device_rate as u64 * self.channels as u64),
            ended: false,
            track_id: self.track_id,
        }
    }
}

impl<T: Copy> MusicPlay<T> {
    /// Whether playback is over: the source has ended and all of it has
    /// reached the ring, or the session was stopped.
    pub fn is_empty(&self) -> (b: bool)
        ensures
            b == self@.control.finished,
    {
        self.control.is_empty()
    }

    /// Silences the output. The device takes nothing from the ring from now
    /// on, so the position stands until playback is resumed.
    pub fn pause(&mut self)
        ensures
            final(self)@ == (MusicPlayView {
                control: ControlView { paused: true, ..old(self)@.control },
                ..old(self)@
            }),
    {
        self.control.pause();
    }

    /// Lets the output sound again.
    pub fn resume(&mut self)
        ensures
            final(self)@ == (MusicPlayView {
                control: ControlView { paused: false, ..old(self)@.control },
                ..old(self)@
            }),
    {
        self.control.resume();
    }

    /// Whether the output is silenced.
    pub fn is_paused(&self) -> (b: bool)
        ensures
            b == self@.control.paused,
    {
        self.control.is_paused()
    }

    /// Volume in hundredths of full scale.
    pub fn get_volume(&self) -> (volume: u8)
        ensures
            volume == self@.control.volume,
            volume <= 100,
    {
        self.control.get_volume()
    }

    /// This session at `volume` hundredths of full scale, held within range.
    pub fn set_volume(self, volume: i32) -> (session: Self)
        ensures
            session@ == (MusicPlayView {
                control: ControlView { volume: clamped(volume as int), ..self@.control },
                ..self@
            }),
    {
        let mut session = self;
        session.control.set_volume(volume);
        session
    }

    /// Sets the volume to `volume` hundredths of full scale, held within
    /// range.
    pub fn set_volume_mut(&mut self, volume: i32)
        ensures
            final(self)@ == (MusicPlayView {
                control: ControlView { volume: clamped(volume as int), ..old(self)@.control },
                ..old(self)@
            }),
    {
        self.control.set_volume(volume);
    }

    /// Moves the volume by `delta` hundredths, within range, and says what
    /// came of it.
    pub fn adjust_volume(&mut self, delta: i32) -> (change: VolumeChange)
        ensures
            change == volume_step(old(self)@.control.volume, delta),
            final(self)@ == (MusicPlayView {
                control: ControlView {
                    volume: clamped(old(self)@.control.volume + delta),
                    ..old(self)@.control
                },
                ..old(self)@
            }),
    {
        self.control.adjust_volume(delta)
    }

    /// Position in whole seconds.
    pub fn get_pos(&self) -> (secs: u64)
        ensures
            secs == self@.control.position,
    {
        self.control.get_pos()
    }

    /// The controls, to read.
    pub fn control(&self) -> (control: &ControlState)
        ensures
            control@ == self@.control,
    {
        &self.control
    }

    /// Whether decoded samples pass through a rate converter.
    pub fn wants_resampler(&self) -> (b: bool)
        ensures
            b == self@.queue is Some,
    {
        self.queue.is_some()
    }

    /// Looks whether the session is over, and records it if so.
    fn settle(&mut self)
        ensures
            final(self)@ == settled(old(self)@),
    {
        if !self.ended || self.control.is_seeking() || !self.transport.starved() {
            return;
        }
        let empty = match &self.queue {
            Some(q) => q.backlog_len() == 0 && q.output_len() == 0,
            None => true,
        };
        if empty {
            self.control.finish();
        }
    }

    /// Does without rate conversion from now on, for want of a converter:
    /// decoded samples go to the ring as they are.
    pub fn forgo_resampling(&mut self)
        ensures
            final(self)@ == settled(MusicPlayView { queue: None, ..old(self)@ }),
    {
        self.queue = None;
        self.settle();
    }

    /// What the decoder's side is to do next.
    pub fn next_action(&self) -> (action: Action)
        ensures
            action == due(self@),
            valid(self@),
    {
        let _ = self.control.get_volume();
        let _ = self.counter.per_second();
        let room = self.transport.has_room();
        let starved = self.transport.starved();
        if self.control.is_empty() {
            Action::Stop
        } else if self.control.is_seeking() {
            Action::AwaitSeek
        } else if !room {
            Action::Rest
        } else if !starved {
            Action::Push
        } else if !self.ended {
            Action::Decode
        } else {
            let empty = match &self.queue {
                Some(q) => q.backlog_len() == 0 && q.output_len() == 0,
                None => true,
            };
            if empty {
                Action::Stop
            } else {
                Action::Flush
            }
        }
    }

    /// Whether packets of track `track_id` are decoded. All others are
    /// skipped.
    pub fn accepts(&self, track_id: u32) -> (b: bool)
        ensures
            b == (track_id == self@.track_id),
    {
        track_id == self.track_id
    }

    /// Takes the samples of a decoded packet.
    pub fn on_decoded(&mut self, samples: Vec<T>)
        ensures
            final(self)@ == after_decoded(old(self)@, samples@),
    {
        match &mut self.queue {
            Some(q) => {
                q.feed(samples.as_slice());
            },
            None => {
                self.transport.load(samples);
            },
        }
        self.settle();
    }

    /// The next chunk for the converter, one row per channel, where there is
    /// a converter's queue and a full chunk waits in it.
    pub fn chunk(&self) -> (planar: Option<Vec<Vec<T>>>)
        ensures
            planar is Some <==> self@.queue is Some && chunk_ready(self@.queue->0),
            planar is Some ==> rows_of(planar->0@) == planar_of(
                self@.queue->0.backlog.take(chunk_len(self@.queue->0) as int),
                self@.queue->0.channels,
                self@.queue->0.frames,
            ),
    {
        match &self.queue {
            Some(q) => q.chunk(),
            None => None,
        }
    }

    /// Offers the converter's answer to the next chunk.
    pub fn accept_chunk(&mut self, resampled: &Vec<Vec<T>>) -> (accepted: bool)
        ensures
            accepted == (old(self)@.queue is Some && acceptable(
                old(self)@.queue->0,
                rows_of(resampled@),
            )),
            final(self)@ == after_chunk(old(self)@, rows_of(resampled@)),
    {
        let accepted = match &mut self.queue {
            Some(q) => q.accept(resampled),
            None => {
                return false;
            },
        };
        self.settle();
        accepted
    }

    /// What is left for the converter once the source has ended: the whole
    /// frames of a last chunk shorter than the others, one row per channel.
    /// Nothing before the end, while a full chunk waits, or when nothing is
    /// left.
    pub fn tail(&self) -> (planar: Option<Vec<Vec<T>>>)
        ensures
            planar is Some <==> self@.ended && self@.queue is Some && tail_waiting(
                self@.queue->0,
            ),
            planar is Some ==> rows_of(planar->0@) == planar_of(
                self@.queue->0.backlog.take(
                    (tail_frames(self@.queue->0) * self@.queue->0.channels) as int,
                ),
                self@.queue->0.channels,
                tail_frames(self@.queue->0),
            ),
    {
        if !self.ended {
            return None;
        }
        match &self.queue {
            Some(q) => q.tail(),
            None => None,
        }
    }

    /// Offers the converter's answer to the tail. Once the source has ended
    /// and no full chunk waits, this empties the converter's backlog, whether
    /// or not the answer is taken.
    pub fn accept_tail(&mut self, resampled: &Vec<Vec<T>>) -> (accepted: bool)
        ensures
            accepted == (old(self)@.ended && old(self)@.queue is Some && tail_accepted(
                old(self)@.queue->0,
                rows_of(resampled@),
            )),
            final(self)@ == after_tail_chunk(old(self)@, rows_of(resampled@)),
            old(self)@.ended && old(self)@.queue is Some && !chunk_ready(old(self)@.queue->0)
                ==> final(self)@.queue->0.backlog.len() == 0,
    {
        if !self.ended {
            return false;
        }
        let accepted = match &mut self.queue {
            Some(q) => q.accept_tail(resampled),
            None => {
                return false;
            },
        };
        self.settle();
        accepted
    }

    /// Closes the conversion of a packet: what the converter made of it waits
    /// for the ring from now on.
    pub fn finish_packet(&mut self)
        ensures
            final(self)@ == after_packet(old(self)@),
    {
        match &mut self.queue {
            Some(q) => {
                let converted = q.take_output();
                self.transport.load(converted);
                self.settle();
            },
            None => {},
        }
    }

    /// Records that the source has been read to its end, or broke beyond
    /// repair. What has been decoded is still played; once all of it has
    /// reached the ring the session is over.
    pub fn on_end_of_stream(&mut self)
        ensures
            final(self)@ == after_end(old(self)@),
    {
        self.ended = true;
        self.settle();
    }

    /// Ends the session at once, whatever is still waiting.
    pub fn stop(&mut self)
        ensures
            final(self)@ == (MusicPlayView {
                control: ControlView { finished: true, ..old(self)@.control },
                ..old(self)@
            }),
    {
        self.control.finish();
    }

    /// Moves waiting samples into the ring, where that is due.
    pub fn pump(&mut self)
        ensures
            final(self)@ == after_pump(old(self)@),
    {
        match self.next_action() {
            Action::Push => {
                let _ = self.transport.pump();
                self.settle();
            },
            _ => {},
        }
    }

    /// Fills `out` for the output device, at the volume of the moment, and
    /// counts what the device takes of the ring into the position. Never
    /// waits.
    pub fn render<F: Fn(T, u8) -> T>(&mut self, out: &mut [T], silence: T, gain: &F) -> (taken: usize)
        requires
            forall|sample: T, volume: u8| call_requires(*gain, (sample, volume)),
        ensures
            final(out)@.len() == old(out)@.len(),
            rendered(
                old(self)@.transport,
                old(self)@.control.paused,
                old(self)@.control.volume,
                silence,
                *gain,
                final(out)@,
            ),
            final(self)@ == after_output(old(self)@, old(out)@.len()),
            taken == drained(old(self)@.transport, old(out)@.len(), old(self)@.control.paused),
    {
        let paused = self.control.is_paused();
        let volume = self.control.get_volume();
        let taken = self.transport.render(out, paused, volume, silence, gain);
        let whole = self.counter.advance(taken);
        self.control.advance(whole);
        taken
    }

    /// Opens a seek to `target`. On a source that cannot seek nothing changes.
    /// Otherwise the decoder is held, and the answer is the whole second that
    /// the source is to be moved to.
    pub fn begin_seek(&mut self, target: Span) -> (r: Result<u64, SeekError>)
        ensures
            r == if old(self)@.control.seekable {
                Ok::<u64, SeekError>(rounded_secs(target))
            } else {
                Err::<u64, SeekError>(SeekError::SeekUnsupported)
            },
            final(self)@ == after_begin_seek(old(self)@),
    {
        self.control.begin_seek(target)
    }

    /// Closes a seek. With the source at `reached` seconds, that is the
    /// position from now on, and what was decoded before the move is dropped:
    /// the converter has to forget its state too. With the source unmoved,
    /// playback goes on as if no seek had been asked for.
    pub fn end_seek(&mut self, reached: Option<u64>) -> (r: Result<(), SeekError>)
        ensures
            r == match reached {
                Some(_) => Ok::<(), SeekError>(()),
                None => Err::<(), SeekError>(SeekError::SeekFailed),
            },
            final(self)@ == after_end_seek(old(self)@, reached),
    {
        if reached.is_some() {
            self.counter.restart();
            self.ended = false;
            self.transport.discard();
            match &mut self.queue {
                Some(q) => {
                    q.reset();
                },
                None => {},
            }
        }
        let r = self.control.end_seek(reached);
        if reached.is_none() {
            self.settle();
        }
        r
    }

    /// A whole seek, given what the source answered when asked to move.
    ///
    /// On a source that can seek and did, the position is `target` to the
    /// nearest second, what was decoded before is dropped, and decoding goes
    /// on from there. Where the source cannot seek, or refused, the error
    /// says which, and playback goes on unaffected.
    pub fn seek(&mut self, target: Span, repositioned: bool) -> (r: Result<(), SeekError>)
        ensures
            r == seek_result(old(self)@.control, repositioned),
            final(self)@ == after_whole_seek(old(self)@, target, repositioned),
            final(self)@.control.position == after_seek(
                old(self)@.control,
                target,
                repositioned,
            ).position,
    {
        match self.begin_seek(target) {
            Ok(secs) => {
                if repositioned {
                    self.end_seek(Some(secs))
                } else {
                    self.end_seek(None)
                }
            },
            Err(e) => Err(e),
        }
    }
}

/// Whether a session's numbers fit together. Every session does.
pub open spec fn valid<T>(s: MusicPlayView<T>) -> bool {
    &&& sound(s.transport)
    &&& s.sub < s.per_second
    &&& s.control.volume <= 100
}

/// One thing that happens to a session.
pub enum Event<T> {
    /// The controls pause.
    Pause,
    /// The controls resume.
    Resume,
    /// The controls ask for a volume.
    Volume(i32),
    /// A seek is opened.
    BeginSeek(Span),
    /// A seek is closed, with the source at that second or unmoved.
    EndSeek(Option<u64>),
    /// A packet was decoded to these samples.
    Decoded(Seq<T>),
    /// The converter answered the next chunk with these rows.
    Chunk(Seq<Seq<T>>),
    /// The converter answered the tail with these rows.
    Tail(Seq<Seq<T>>),
    /// The conversion of a packet is closed.
    Packet,
    /// The source was read to its end.
    EndOfStream,
    /// The session is stopped.
    Stop,
    /// The decoder's side pumps.
    Pump,
    /// The output takes that many samples.
    Output(nat),
}

/// The session after `event`.
pub open spec fn after<T>(s: MusicPlayView<T>, event: Event<T>) -> MusicPlayView<T> {
    match event {
        Event::Pause => MusicPlayView { control: ControlView { paused: true, ..s.control }, ..s },
        Event::Resume => MusicPlayView { control: ControlView { paused: false, ..s.control }, ..s },
        Event::Volume(volume) => MusicPlayView {
            control: ControlView { volume: clamped(volume as int), ..s.control },
            ..s
        },
        Event::BeginSeek(_) => after_begin_seek(s),
        Event::EndSeek(reached) => after_end_seek(s, reached),
        Event::Decoded(samples) => after_decoded(s, samples),
        Event::Chunk(resampled) => after_chunk(s, resampled),
        Event::Tail(resampled) => after_tail_chunk(s, resampled),
        Event::Packet => after_packet(s),
        Event::EndOfStream => after_end(s),
        Event::Stop => MusicPlayView { control: ControlView { finished: true, ..s.control }, ..s },
        Event::Pump => after_pump(s),
        Event::Output(want) => after_output(s, want),
    }
}

/// The session after `events`, one after the other.
pub open spec fn after_all<T>(s: MusicPlayView<T>, events: Seq<Event<T>>) -> MusicPlayView<T>
    decreases events.len(),
{
    if events.len() == 0 {
        s
    } else {
        after_all(after(s, events[0]), events.drop_first())
    }
}

/// Whether `event` is neither a resume nor part of a seek.
pub open spec fn keeps_still<T>(event: Event<T>) -> bool {
    !(event is Resume || event is BeginSeek || event is EndSeek)
}

/// Whether `event` closes a seek with the source moved.
pub open spec fn lands_seek<T>(event: Event<T>) -> bool {
    event matches Event::EndSeek(Some(_))
}

proof fn lemma_counted(sub: nat, count: nat, per_second: nat)
    requires
        per_second > 0,
    ensures
        left_over(sub, count, per_second) < per_second,
{
    lemma_mod_pos_bound((sub + count) as int, per_second as int);
}

proof fn lemma_step<T>(s: MusicPlayView<T>, event: Event<T>)
    requires
        valid(s),
    ensures
        valid(after(s, event)),
        s.control.finished ==> after(s, event).control.finished,
        after(s, event).per_second == s.per_second,
        !lands_seek(event) ==> after(s, event).control.position >= s.control.position,
        s.control.paused && keeps_still(event) ==> after(s, event).control.paused && after(
            s,
            event,
        ).control.position == s.control.position && after(s, event).sub == s.sub,
{
    let r = after(s, event);
    match event {
        Event::Pump => {
            if due(s) == Action::Push {
                lemma_pump_bounds(s.transport);
            }
        },
        Event::Output(want) => {
            let taken = drained(s.transport, want, s.control.paused);
            lemma_counted(s.sub, taken, s.per_second);
            if s.control.paused {
                assert(r.transport.queued =~= s.transport.queued);
                assert(whole_seconds(s.sub, 0, s.per_second) == 0 && left_over(
                    s.sub,
                    0,
                    s.per_second,
                ) == s.sub) by {
                    vstd::arithmetic::div_mod::lemma_small_mod(s.sub, s.per_second);
                    vstd::arithmetic::div_mod::lemma_basic_div(s.sub as int, s.per_second as int);
                }
            }
        },
        _ => {},
    }
}

/// A session's numbers fit together whatever happens: the volume stays within
/// range, the ring within its capacity, the count of samples within a second.
pub proof fn law_session_stays_valid<T>(s: MusicPlayView<T>, events: Seq<Event<T>>)
    requires
        valid(s),
    ensures
        valid(after_all(s, events)),
    decreases events.len(),
{
    if events.len() > 0 {
        lemma_step(s, events[0]);
        law_session_stays_valid(after(s, events[0]), events.drop_first());
    }
}

/// Where the source's rate is the device's, nothing is converted: the
/// session starts without a converter's queue, and what a packet decodes to
/// is, sample for sample, what waits for the ring.
pub proof fn law_equal_rates_pass_through<T>(player: Player, rate: u32, samples: Seq<T>)
    requires
        player.sample_rate == rate,
    ensures
        started::<T>(player, rate).queue is None,
        after_decoded(started::<T>(player, rate), samples).transport.pending == samples,
        after_packet(after_decoded(started::<T>(player, rate), samples)) == after_decoded(
            started::<T>(player, rate),
            samples,
        ),
{
}

/// Once playback is over it stays over, whatever happens.
pub proof fn law_end_is_final<T>(s: MusicPlayView<T>, events: Seq<Event<T>>)
    requires
        valid(s),
        s.control.finished,
    ensures
        after_all(s, events).control.finished,
    decreases events.len(),
{
    if events.len() > 0 {
        lemma_step(s, events[0]);
        law_end_is_final(after(s, events[0]), events.drop_first());
    }
}

/// The position never falls, unless a seek lands.
pub proof fn law_position_never_falls<T>(s: MusicPlayView<T>, events: Seq<Event<T>>)
    requires
        valid(s),
        forall|k: int| 0 <= k < events.len() ==> !lands_seek(#[trigger] events[k]),
    ensures
        after_all(s, events).control.position >= s.control.position,
    decreases events.len(),
{
    if events.len() > 0 {
        lemma_step(s, events[0]);
        let rest = events.drop_first();
        assert forall|k: int| 0 <= k < rest.len() implies !lands_seek(#[trigger] rest[k]) by {
            assert(rest[k] == events[k + 1]);
        }
        law_position_never_falls(after(s, events[0]), rest);
    }
}

/// While a session is paused, and until it is resumed or sought, the
/// position stands still, whatever else happens and however long it lasts:
/// the device takes nothing from the ring, and only what the device takes is
/// counted.
pub proof fn law_pause_holds_position<T>(s: MusicPlayView<T>, events: Seq<Event<T>>)
    requires
        valid(s),
        s.control.paused,
        forall|k: int| 0 <= k < events.len() ==> keeps_still(#[trigger] events[k]),
    ensures
        after_all(s, events).control.paused,
        after_all(s, events).control.position == s.control.position,
    decreases events.len(),
{
    if events.len() > 0 {
        lemma_step(s, events[0]);
        let rest = events.drop_first();
        assert forall|k: int| 0 <= k < rest.len() implies keeps_still(#[trigger] rest[k]) by {
            assert(rest[k] == events[k + 1]);
        }
        law_pause_holds_position(after(s, events[0]), rest);
    }
}

/// The end does not go unnoticed: from the start of a session on, whatever
/// happens, once the source has ended and all that was decoded has reached
/// the ring, with no seek under way, the session is over.
pub proof fn law_end_is_noticed<T>(s: MusicPlayView<T>, events: Seq<Event<T>>)
    requires
        settled(s) == s,
    ensures
        settled(after_all(s, events)) == after_all(s, events),
    decreases events.len(),
{
    if events.len() > 0 {
        law_end_is_noticed(after(s, events[0]), events.drop_first());
    }
}

/// A seek that fails is no seek: where the source cannot seek, or does not
/// move, the session is after the seek what it was before.
pub proof fn law_failed_seek_changes_nothing<T>(s: MusicPlayView<T>, target: Span)
    requires
        !s.control.seeking,
        settled(s) == s,
    ensures
        after_whole_seek(s, target, false) == s,
        !s.control.seekable ==> after_whole_seek(s, target, true) == s,
{
}

/// When the source has ended, offering the converter's answer to the tail
/// leaves nothing behind for the converter: all that was decoded has been
/// handed to it, the last short chunk included.
pub proof fn law_tail_empties_backlog<T>(s: MusicPlayView<T>, resampled: Seq<Seq<T>>)
    requires
        s.ended,
        s.queue is Some,
        !chunk_ready(s.queue->0),
    ensures
        after_tail_chunk(s, resampled).queue->0.backlog.len() == 0,
{
}

} // verus!
