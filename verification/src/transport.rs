//! The sample path of one session: the decoder's local buffer, the ring that
//! it feeds, and the output side that drains the ring.

use vstd::prelude::*;
use crate::ring::RingBuffer;

verus! {

/// What a [`Transport`] holds, as plain values.
pub struct TransportView<T> {
    /// Samples in the ring, oldest first.
    pub queued: Seq<T>,
    /// Number of slots in the ring.
    pub capacity: nat,
    /// The samples of the packet decoded last, interleaved.
    pub pending: Seq<T>,
    /// How many of `pending` have been moved into the ring.
    pub index: nat,
    /// Samples per frame.
    pub channels: nat,
    /// Free slots that the feeding side leaves untouched.
    pub headroom: nat,
}

/// Free slots in the ring.
pub open spec fn free_slots<T>(t: TransportView<T>) -> int {
    t.capacity - t.queued.len()
}

/// How many samples one call of [`Transport::pump`] moves: all that are left
/// of the packet, but no more than the ring takes before its free space is
/// down to the headroom.
pub open spec fn movable<T>(t: TransportView<T>) -> int {
    let left = t.pending.len() - t.index;
    let room = free_slots(t) - t.headroom;
    if room <= 0 {
        0
    } else if left < room {
        left
    } else {
        room
    }
}

/// The transport after one pump.
pub open spec fn pumped<T>(t: TransportView<T>) -> TransportView<T> {
    TransportView {
        queued: t.queued + t.pending.subrange(t.index as int, t.index + movable(t)),
        index: (t.index + movable(t)) as nat,
        ..t
    }
}

/// How many queued samples reach an output buffer of `want` samples.
pub open spec fn drained<T>(t: TransportView<T>, want: nat, paused: bool) -> nat {
    if paused {
        0
    } else if t.queued.len() < want {
        t.queued.len()
    } else {
        want
    }
}

/// Whether `out` is what one render leaves in the output buffer: while
/// paused nothing but silence; otherwise what `gain` makes, at `volume`, of
/// the queued samples, in queue order, and behind them what it makes of
/// silence.
pub open spec fn rendered<T, F: Fn(T, u8) -> T>(
    t: TransportView<T>,
    paused: bool,
    volume: u8,
    silence: T,
    gain: F,
    out: Seq<T>,
) -> bool {
    forall|i: int|
        0 <= i < out.len() ==> if paused {
            (#[trigger] out[i]) == silence
        } else if i < drained(t, out.len(), paused) {
            call_ensures(gain, (t.queued[i], volume), out[i])
        } else {
            call_ensures(gain, (silence, volume), out[i])
        }
}

/// The transport after one render into a buffer of `want` samples.
pub open spec fn after_render<T>(t: TransportView<T>, want: nat, paused: bool) -> TransportView<T> {
    TransportView { queued: t.queued.skip(drained(t, want, paused) as int), ..t }
}

/// Whether a transport's numbers fit together.
pub open spec fn sound<T>(t: TransportView<T>) -> bool {
    &&& t.queued.len() <= t.capacity
    &&& t.index <= t.pending.len()
    &&& t.channels > 0
}

/// Free slots above the headroom: what the feeding side may still fill.
pub open spec fn room<T>(t: TransportView<T>) -> int {
    if free_slots(t) > t.headroom {
        free_slots(t) - t.headroom
    } else {
        0
    }
}

/// A pump takes what it moves out of the room above the headroom, and
/// leaves the numbers sound.
pub proof fn lemma_pump_bounds<T>(t: TransportView<T>)
    requires
        sound(t),
    ensures
        0 <= movable(t) <= room(t),
        room(pumped(t)) == room(t) - movable(t),
        sound(pumped(t)),
{
}

/// Decoder-side buffer, ring and output side of one session.
pub struct Transport<T: Copy> {
    ring: RingBuffer<T>,
    pending: Vec<T>,
    index: usize,
    channels: usize,
    headroom: usize,
}

impl<T: Copy> View for Transport<T> {
    type V = TransportView<T>;

    closed spec fn view(&self) -> TransportView<T> {
        TransportView {
            queued: self.ring@,
            capacity: self.ring.spec_capacity(),
            pending: self.pending@,
            index: self.index as nat,
            channels: self.channels as nat,
            headroom: self.headroom as nat,
        }
    }
}

impl<T: Copy> Transport<T> {
    #[verifier::type_invariant]
    closed spec fn inv(self) -> bool {
        &&& self.index <= self.pending@.len()
        &&& self.channels > 0
    }

    /// An idle transport: an empty ring of `capacity` slots and no packet.
    pub fn new(capacity: usize, channels: usize, headroom: usize) -> (t: Self)
        requires
            channels > 0,
        ensures
            t@ == (TransportView {
                queued: Seq::<T>::empty(),
                capacity: capacity as nat,
                pending: Seq::<T>::empty(),
                index: 0,
                channels: channels as nat,
                headroom: headroom as nat,
            }),
    {
        Transport { ring: RingBuffer::new(capacity), pending: Vec::new(), index: 0, channels, headroom }
    }

    /// Whether every sample of the current packet is in the ring, so that the
    /// next packet is wanted.
    pub fn starved(&self) -> (b: bool)
        ensures
            b == (self@.index >= self@.pending.len()),
            self@.index <= self@.pending.len(),
            self@.channels > 0,
    {
        proof {
            use_type_invariant(self);
        }
        self.index >= self.pending.len()
    }

    /// Whether the ring has more free slots than the headroom.
    pub fn has_room(&self) -> (b: bool)
        ensures
            b == (free_slots(self@) > self@.headroom),
            self@.queued.len() <= self@.capacity,
    {
        self.ring.free_len() > self.headroom
    }

    /// Samples per frame.
    pub fn channels(&self) -> (n: usize)
        ensures
            n == self@.channels,
            n > 0,
    {
        proof {
            use_type_invariant(self);
        }
        self.channels
    }

    /// Number of samples waiting in the ring.
    pub fn queued_len(&self) -> (n: usize)
        ensures
            n == self@.queued.len(),
    {
        self.ring.len()
    }

    /// Takes `samples` as the current packet, in place of the previous one.
    pub fn load(&mut self, samples: Vec<T>)
        ensures
            final(self)@ == (TransportView { pending: samples@, index: 0, ..old(self)@ }),
    {
        proof {
            use_type_invariant(&*self);
        }
        self.index = 0;
        self.pending = samples;
    }

    /// Forgets the current packet; the ring is left as it is.
    pub fn discard(&mut self)
        ensures
            final(self)@ == (TransportView {
                pending: Seq::<T>::empty(),
                index: 0,
                ..old(self)@
            }),
    {
        proof {
            use_type_invariant(&*self);
        }
        self.index = 0;
        self.pending = Vec::new();
    }

    /// Moves samples of the current packet into the ring, in order, until the
    /// packet is used up or the ring's free space is down to the headroom.
    /// Returns the number of samples moved.
    pub fn pump(&mut self) -> (moved: usize)
        ensures
            final(self)@ == pumped(old(self)@),
            moved == movable(old(self)@),
            sound(final(self)@),
    {
        proof {
            use_type_invariant(&*self);
        }
        let ghost before = self@;
        let free = self.ring.free_len();
        let left = self.pending.len() - self.index;
        let room = if free > self.headroom {
            free - self.headroom
        } else {
            0
        };
        let moved = if left < room {
            left
        } else {
            room
        };
        let end = self.index + moved;
        while self.index < end
            invariant
                self.channels > 0,
                self@ == (TransportView { queued: self@.queued, index: self@.index, ..before }),
                before.index <= self.index <= end <= before.pending.len(),
                end == before.index + movable(before),
                self@.queued.len() + (end - self.index) <= before.capacity,
                self@.queued == before.queued + before.pending.subrange(
                    before.index as int,
                    self.index as int,
                ),
            decreases end - self.index,
        {
            let sample = self.pending[self.index];
            let _ = self.ring.push(sample);
            self.index = self.index + 1;
        }
        moved
    }

    /// Fills `out` for the output device. While `paused`, everything is
    /// `silence` and the ring is not touched. Otherwise each place gets what
    /// `gain` makes, at `volume`, of the next queued sample, or of `silence`
    /// where the ring has run dry. Never waits. Returns the number of samples
    /// taken from the ring.
    pub fn render<F: Fn(T, u8) -> T>(
        &mut self,
        out: &mut [T],
        paused: bool,
        volume: u8,
        silence: T,
        gain: &F,
    ) -> (taken: usize)
        requires
            forall|sample: T| call_requires(*gain, (sample, volume)),
        ensures
            final(out)@.len() == old(out)@.len(),
            rendered(old(self)@, paused, volume, silence, *gain, final(out)@),
            final(self)@ == after_render(old(self)@, old(out)@.len(), paused),
            taken == drained(old(self)@, old(out)@.len(), paused),
    {
        proof {
            use_type_invariant(&*self);
        }
        let ghost before = self@;
        let want = out.len();
        let mut taken: usize = 0;
        let mut i: usize = 0;
        while i < want
            invariant
                out@.len() == want,
                i <= want,
                taken <= i,
                self.index <= self.pending@.len(),
                self.channels > 0,
                self@ == (TransportView { queued: self@.queued, ..before }),
                paused ==> taken == 0,
                !paused ==> (taken == i || self@.queued.len() == 0),
                taken <= before.queued.len(),
                self@.queued == before.queued.skip(taken as int),
                forall|sample: T| call_requires(*gain, (sample, volume)),
                forall|j: int|
                    0 <= j < i ==> if paused {
                        (#[trigger] out@[j]) == silence
                    } else if j < taken {
                        call_ensures(*gain, (before.queued[j], volume), out@[j])
                    } else {
                        call_ensures(*gain, (silence, volume), out@[j])
                    },
            decreases want - i,
        {
            let mut sample = silence;
            if !paused {
                match self.ring.pop() {
                    Some(s) => {
                        sample = gain(s, volume);
                        taken = taken + 1;
                    },
                    None => {
                        sample = gain(silence, volume);
                    },
                }
            }
            out[i] = sample;
            i = i + 1;
        }
        taken
    }
}

} // verus!
