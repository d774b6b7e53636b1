//! A session that plays a remote stream: the controls, the sample path with
//! its packet-wise rate conversion, and the progress of the download.

use vstd::prelude::*;
use crate::control::ControlState;
use crate::control::ControlView;
use crate::control::SeekError;
use crate::control::Span;
use crate::control::VolumeChange;
use crate::control::volume_step;
use crate::control::clamped;
use crate::linear::LinearResampler;
use crate::linear::LinearView;
use crate::linear::fed;
use crate::linear::finished_with;
use crate::linear::fresh;
use crate::linear::streamed;
use crate::play::Action;
use crate::source::Selection;
use crate::transport::Transport;
use crate::transport::TransportView;
use crate::transport::after_render;
use crate::transport::drained;
use crate::transport::free_slots;
use crate::transport::pumped;
use crate::transport::rendered;
use crate::transport::sound;

verus! {

/// Free slots of the ring that the decoder leaves untouched.
pub const STREAM_HEADROOM: usize = 4096;

/// A session on a remote stream, as plain values.
pub struct UrlPlayerView<T> {
    pub control: ControlView,
    pub transport: TransportView<T>,
    /// Frames per second of the stream.
    pub sample_rate: u32,
    /// Channels of the stream.
    pub channels: u32,
    /// Frames per second of the device.
    pub device_rate: u32,
    /// The track whose packets are decoded.
    pub track_id: u32,
    /// Bytes received so far.
    pub downloaded: u64,
    /// Bytes that the server announced, if it did.
    pub total: Option<u64>,
    /// The converter to the device's rate, where that is not the stream's.
    pub converter: Option<LinearView<T>>,
    /// The stream has been read to its end.
    pub ended: bool,
}

/// The session that starts on a stream as it was probed.
pub open spec fn set_up<T>(
    chosen: Selection,
    device_rate: u32,
    volume: i32,
    total: Option<u64>,
) -> UrlPlayerView<T> {
    UrlPlayerView {
        control: ControlView {
            paused: false,
            seeking: false,
            finished: false,
            volume: clamped(volume as int),
            position: 0,
            seekable: false,
        },
        transport: TransportView {
            queued: Seq::empty(),
            capacity: device_rate as nat * 2,
            pending: Seq::empty(),
            index: 0,
            channels: chosen.channels as nat,
            headroom: STREAM_HEADROOM as nat,
        },
        sample_rate: chosen.sample_rate,
        channels: chosen.channels as u32,
        device_rate,
        track_id: chosen.track_id,
        downloaded: 0,
        total,
        converter: if chosen.sample_rate != device_rate {
            Some(fresh(chosen.sample_rate, device_rate, chosen.channels as nat))
        } else {
            None
        },
        ended: false,
    }
}

/// The session once the end of the stream has been looked after. When the
/// stream has ended and everything decoded has reached the ring, the
/// converter hands out the output frames that stand on the stream's last
/// frame; they wait for the ring. When there are none, or no converter, the
/// session is over.
pub open spec fn stream_settled<T>(s: UrlPlayerView<T>) -> UrlPlayerView<T> {
    if s.ended && s.transport.index >= s.transport.pending.len() {
        match s.converter {
            Some(c) => if finished_with(c).len() > 0 {
                UrlPlayerView {
                    transport: TransportView {
                        pending: finished_with(c),
                        index: 0,
                        ..s.transport
                    },
                    converter: Some(fresh(c.from_rate, c.to_rate, c.channels)),
                    ..s
                }
            } else {
                UrlPlayerView {
                    control: ControlView { finished: true, ..s.control },
                    converter: Some(fresh(c.from_rate, c.to_rate, c.channels)),
                    ..s
                }
            },
            None => UrlPlayerView { control: ControlView { finished: true, ..s.control }, ..s },
        }
    } else {
        s
    }
}

/// What is due on the decoder's side.
pub open spec fn stream_due<T>(s: UrlPlayerView<T>) -> Action {
    if s.control.finished {
        Action::Stop
    } else if free_slots(s.transport) <= s.transport.headroom {
        Action::Rest
    } else if s.transport.index < s.transport.pending.len() {
        Action::Push
    } else if !s.ended {
        Action::Decode
    } else {
        Action::Stop
    }
}

/// The session after a packet was decoded to `samples`, given what the
/// converter made of them: that waits for the ring, or the samples as they
/// are where nothing is converted.
pub open spec fn stream_decoded<T>(
    s: UrlPlayerView<T>,
    samples: Seq<T>,
    converted: Seq<T>,
) -> UrlPlayerView<T> {
    UrlPlayerView {
        transport: TransportView {
            pending: match s.converter {
                Some(_) => converted,
                None => samples,
            },
            index: 0,
            ..s.transport
        },
        converter: match s.converter {
            Some(c) => Some(fed(c, samples)),
            None => None,
        },
        ..s
    }
}

/// The session after the stream was read to its end.
pub open spec fn stream_ended<T>(s: UrlPlayerView<T>) -> UrlPlayerView<T> {
    stream_settled(UrlPlayerView { ended: true, ..s })
}

/// Bytes received once `len` more have come, as far as 64 bits count.
pub open spec fn counted(downloaded: u64, len: nat) -> u64 {
    if downloaded + len > u64::MAX {
        u64::MAX
    } else {
        (downloaded + len) as u64
    }
}

/// How far a download has come, in thousandths of the announced length,
/// rounded down. Known exactly when a length was announced; an announced
/// length of zero counts as all there.
pub open spec fn progress(downloaded: u64, total: Option<u64>) -> Option<u128> {
    match total {
        Some(total) => if total == 0 {
            Some(1000)
        } else {
            Some(((downloaded as nat * 1000) / (total as nat)) as u128)
        },
        None => None,
    }
}

/// A session that plays a remote stream.
pub struct UrlPlayer<T: Copy> {
    control: ControlState,
    transport: Transport<T>,
    rates: Rates,
    track_id: u32,
    downloaded: u64,
    total: Option<u64>,
    converter: Option<LinearResampler<T>>,
    ended: bool,
}

/// The rates and the channel count of a stream session.
struct Rates {
    sample_rate: u32,
    device_rate: u32,
    channels: u16,
}

impl Rates {
    #[verifier::type_invariant]
    spec fn inv(self) -> bool {
        self.sample_rate > 0 && self.channels > 0
    }
}

impl<T: Copy> View for UrlPlayer<T> {
    type V = UrlPlayerView<T>;

    closed spec fn view(&self) -> UrlPlayerView<T> {
        UrlPlayerView {
            control: self.control@,
            transport: self.transport@,
            sample_rate: self.rates.sample_rate,
            channels: self.rates.channels as u32,
            device_rate: self.rates.device_rate,
            track_id: self.track_id,
            downloaded: self.downloaded,
            total: self.total,
            converter: match self.converter {
                Some(c) => Some(c@),
                None => None,
            },
            ended: self.ended,
        }
    }
}

impl<T: Copy> UrlPlayer<T> {
    /// Starts a session on a stream as it was probed, on a device of
    /// `device_rate` frames per second, at `volume` hundredths of full scale.
    /// The ring holds two seconds of samples.
    pub fn new(chosen: Selection, device_rate: u32, volume: i32, total: Option<u64>) -> (session:
        Self)
        requires
            chosen.sample_rate > 0,
            chosen.channels > 0,
            device_rate > 0,
            device_rate * 2 <= usize::MAX,
        ensures
            session@ == set_up::<T>(chosen, device_rate, volume, total),
    {
        let converter = if chosen.sample_rate != device_rate {
            LinearResampler::new(chosen.sample_rate, device_rate, chosen.channels as usize)
        } else {
            None
        };
        UrlPlayer {
            control: ControlState::new(volume, false),
            transport: Transport::new(
                device_rate as usize * 2,
                chosen.channels as usize,
                STREAM_HEADROOM,
            ),
            rates: Rates {
                sample_rate: chosen.sample_rate,
                device_rate,
                channels: chosen.channels,
            },
            track_id: chosen.track_id,
            downloaded: 0,
            total,
            converter,
            ended: false,
        }
    }

    /// Sets the volume to `volume` hundredths of full scale, held within
    /// range.
    pub fn set_volume(&mut self, volume: i32)
        ensures
            final(self)@ == (UrlPlayerView {
                control: ControlView { volume: clamped(volume as int), ..old(self)@.control },
                ..old(self)@
            }),
    {
        self.control.set_volume(volume);
    }

    /// Volume in hundredths of full scale.
    pub fn get_volume(&self) -> (volume: u8)
        ensures
            volume == self@.control.volume,
            volume <= 100,
    {
        self.control.get_volume()
    }

    /// Moves the volume by `delta` hundredths, within range, and says what
    /// came of it.
    pub fn adjust_volume(&mut self, delta: i32) -> (change: VolumeChange)
        ensures
            change == volume_step(old(self)@.control.volume, delta),
            final(self)@ == (UrlPlayerView {
                control: ControlView {
                    volume: clamped(old(self)@.control.volume + delta),
                    ..old(self)@.control
                },
                ..old(self)@
            }),
    {
        self.control.adjust_volume(delta)
    }

    /// Silences the output.
    pub fn pause(&mut self)
        ensures
            final(self)@ == (UrlPlayerView {
                control: ControlView { paused: true, ..old(self)@.control },
                ..old(self)@
            }),
    {
        self.control.pause();
    }

    /// Lets the output sound again.
    pub fn resume(&mut self)
        ensures
            final(self)@ == (UrlPlayerView {
                control: ControlView { paused: false, ..old(self)@.control },
                ..old(self)@
            }),
    {
        self.control.resume();
    }

    /// Whether the output is silenced.
    pub fn is_paused(&self) -> (b: bool)
        ensures
            b == self@.control.paused,
    {
        self.control.is_paused()
    }

    /// Whether the stream has ended.
    pub fn is_empty(&self) -> (b: bool)
        ensures
            b == self@.control.finished,
    {
        self.control.is_empty()
    }

    /// The controls, to read.
    pub fn control(&self) -> (control: &ControlState)
        ensures
            control@ == self@.control,
    {
        &self.control
    }

    /// Frames per second of the stream.
    pub fn sample_rate(&self) -> (rate: u32)
        ensures
            rate == self@.sample_rate,
            rate > 0,
    {
        proof {
            use_type_invariant(&self.rates);
        }
        self.rates.sample_rate
    }

    /// Channels of the stream.
    pub fn channels(&self) -> (channels: u32)
        ensures
            channels == self@.channels,
            channels > 0,
    {
        proof {
            use_type_invariant(&self.rates);
        }
        self.rates.channels as u32
    }

    /// Bytes received so far.
    pub fn get_downloaded_bytes(&self) -> (bytes: u64)
        ensures
            bytes == self@.downloaded,
    {
        self.downloaded
    }

    /// Bytes that the server announced, if it did.
    pub fn get_total_bytes(&self) -> (bytes: Option<u64>)
        ensures
            bytes == self@.total,
    {
        self.total
    }

    /// How far the download has come, in thousandths of the announced
    /// length; nothing where, and only where, no length was announced.
    pub fn get_download_progress(&self) -> (thousandths: Option<u128>)
        ensures
            thousandths == progress(self@.downloaded, self@.total),
            thousandths is None <==> self@.total is None,
    {
        match self.total {
            Some(total) => if total == 0 {
                Some(1000)
            } else {
                assert(self.downloaded as nat * 1000 <= u64::MAX * 1000) by (nonlinear_arith)
                    requires
                        self.downloaded <= u64::MAX,
                ;
                Some((self.downloaded as u128 * 1000) / (total as u128))
            },
            None => None,
        }
    }

    /// Counts a received chunk of `len` bytes.
    pub fn record_chunk(&mut self, len: usize)
        ensures
            final(self)@ == (UrlPlayerView {
                downloaded: counted(old(self)@.downloaded, len as nat),
                ..old(self)@
            }),
    {
        self.downloaded = self.downloaded.saturating_add(len as u64);
    }

    /// A stream cannot be repositioned: every seek is refused and changes
    /// nothing.
    pub fn seek(&mut self, target: Span) -> (r: Result<(), SeekError>)
        ensures
            r == Err::<(), SeekError>(SeekError::SeekUnsupported),
            final(self)@ == old(self)@,
    {
        Err(SeekError::SeekUnsupported)
    }

    /// Looks whether the session is over, and records it if so.
    fn settle(&mut self)
        ensures
            final(self)@ == stream_settled(old(self)@),
    {
        if !self.ended || !self.transport.starved() {
            return;
        }
        match &mut self.converter {
            Some(converter) => {
                let last = converter.finish();
                if last.len() > 0 {
                    self.transport.load(last);
                } else {
                    self.control.finish();
                }
            },
            None => {
                self.control.finish();
            },
        }
    }

    /// What the decoder's side is to do next.
    pub fn next_action(&self) -> (action: Action)
        ensures
            action == stream_due(self@),
            sound(self@.transport),
    {
        let room = self.transport.has_room();
        let starved = self.transport.starved();
        if self.control.is_empty() {
            Action::Stop
        } else if !room {
            Action::Rest
        } else if !starved {
            Action::Push
        } else if !self.ended {
            Action::Decode
        } else {
            Action::Stop
        }
    }

    /// Whether packets of track `track_id` are decoded. All others are
    /// skipped.
    pub fn accepts(&self, track_id: u32) -> (b: bool)
        ensures
            b == (track_id == self@.track_id),
    {
        track_id == self.track_id
    }

    /// Whether rate conversion is needed: whether the stream's rate is not
    /// the device's.
    pub fn resamples(&self) -> (b: bool)
        ensures
            b == self@.converter is Some,
    {
        self.converter.is_some()
    }

    /// Takes the samples of a decoded packet, converted to the device's rate
    /// where that differs from the stream's: they wait for the ring from now
    /// on. The conversion takes up where the packet before left off.
    pub fn on_decoded<F: Fn(T, T, u32, u32) -> T>(&mut self, samples: Vec<T>, blend: &F)
        requires
            forall|a: T, b: T, weight: u32, rate: u32|
                weight < rate ==> call_requires(*blend, (a, b, weight, rate)),
        ensures
            final(self)@ == stream_decoded(
                old(self)@,
                samples@,
                final(self)@.transport.pending,
            ),
            old(self)@.converter is Some ==> streamed(
                old(self)@.converter->0,
                samples@,
                *blend,
                final(self)@.transport.pending,
            ),
    {
        match &mut self.converter {
            Some(converter) => {
                let converted = converter.resample_linear(samples.as_slice(), blend);
                self.transport.load(converted);
            },
            None => {
                self.transport.load(samples);
            },
        }
    }

    /// Records that the stream has been read to its end, or broke beyond
    /// repair. What has been decoded is still played; once all of it has
    /// reached the ring the session is over.
    pub fn on_end_of_stream(&mut self)
        ensures
            final(self)@ == stream_ended(old(self)@),
    {
        self.ended = true;
        self.settle();
    }

    /// Ends the session at once, whatever is still waiting.
    pub fn stop(&mut self)
        ensures
            final(self)@ == (UrlPlayerView {
                control: ControlView { finished: true, ..old(self)@.control },
                ..old(self)@
            }),
    {
        self.control.finish();
    }

    /// Moves waiting samples into the ring, where that is due; where the
    /// stream has ended and these were the last, the session is over.
    pub fn pump(&mut self)
        ensures
            final(self)@ == if stream_due(old(self)@) == Action::Push {
                stream_settled(
                    UrlPlayerView { transport: pumped(old(self)@.transport), ..old(self)@ },
                )
            } else {
                old(self)@
            },
    {
        match self.next_action() {
            Action::Push => {
                let _ = self.transport.pump();
                self.settle();
            },
            _ => {},
        }
    }

    /// Fills `out` for the output device, at the volume of the moment. Never
    /// waits.
    pub fn render<F: Fn(T, u8) -> T>(&mut self, out: &mut [T], silence: T, gain: &F) -> (taken: usize)
        requires
            forall|sample: T, volume: u8| call_requires(*gain, (sample, volume)),
        ensures
            final(out)@.len() == old(out)@.len(),
            rendered(
                old(self)@.transport,
                old(self)@.control.paused,
                old(self)@.control.volume,
                silence,
                *gain,
                final(out)@,
            ),
            final(self)@ == (UrlPlayerView {
                transport: after_render(
                    old(self)@.transport,
                    old(out)@.len(),
                    old(self)@.control.paused,
                ),
                ..old(self)@
            }),
            taken == drained(old(self)@.transport, old(out)@.len(), old(self)@.control.paused),
    {
        let paused = self.control.is_paused();
        let volume = self.control.get_volume();
        self.transport.render(out, paused, volume, silence, gain)
    }
}

} // verus!
