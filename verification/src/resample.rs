//! Feeding a streaming rate converter: cutting the decoded stream into the
//! fixed chunks that the converter consumes, handing it the short chunk that
//! is left at the end, and putting its answers back together.

use vstd::prelude::*;
use vstd::arithmetic::div_mod::lemma_fundamental_div_mod_converse;
use vstd::arithmetic::div_mod::lemma_fundamental_div_mod;
use vstd::arithmetic::div_mod::lemma_mod_pos_bound;

verus! {

/// Whether decoded audio has to be converted before the device can play it.
pub open spec fn spec_needs_resampling(source_rate: u32, device_rate: u32) -> bool {
    source_rate != device_rate
}

/// Whether decoded audio has to be converted before the device can play it:
/// exactly when the two rates differ.
pub fn needs_resampling(source_rate: u32, device_rate: u32) -> (b: bool)
    ensures
        b == spec_needs_resampling(source_rate, device_rate),
{
    source_rate != device_rate
}

/// The channel-major form of an interleaved block of `frames` frames:
/// row `ch` holds the samples of channel `ch`, one per frame.
pub open spec fn planar_of<T>(interleaved: Seq<T>, channels: nat, frames: nat) -> Seq<Seq<T>> {
    Seq::new(channels, |ch: int| Seq::new(frames, |f: int| interleaved[f * channels + ch]))
}

/// The interleaved form of the first `frames` frames of the first `channels`
/// rows of a channel-major block.
pub open spec fn interleaved_of<T>(planar: Seq<Seq<T>>, channels: nat, frames: nat) -> Seq<T> {
    Seq::new(
        frames * channels,
        |i: int| planar[i % (channels as int)][i / (channels as int)],
    )
}

/// Whether a channel-major block has at least `channels` rows, each at least
/// as long as the first.
pub open spec fn well_shaped<T>(planar: Seq<Seq<T>>, channels: nat) -> bool {
    &&& 0 < channels <= planar.len()
    &&& forall|ch: int| 0 <= ch < channels ==> planar[0].len() <= (#[trigger] planar[ch]).len()
}

/// The full chunks of `len` samples that a stream yields, in order.
pub open spec fn chunks<T>(stream: Seq<T>, len: nat) -> Seq<Seq<T>>
    decreases stream.len(),
{
    if len == 0 || stream.len() < len {
        Seq::empty()
    } else {
        seq![stream.take(len as int)] + chunks(stream.skip(len as int), len)
    }
}

/// What is left of a stream behind its last full chunk.
pub open spec fn leftover<T>(stream: Seq<T>, len: nat) -> Seq<T>
    decreases stream.len(),
{
    if len == 0 || stream.len() < len {
        stream
    } else {
        leftover(stream.skip(len as int), len)
    }
}

/// Chunking does not depend on how the stream arrives: a stream that comes
/// in two pieces yields the chunks of the first piece, then the chunks of what
/// the first piece left over followed by the second piece. The interpolator
/// therefore sees the same chunks as if it had been given the whole stream at
/// once, and the same samples are left over.
pub proof fn law_chunking_is_streaming<T>(first: Seq<T>, second: Seq<T>, len: nat)
    requires
        len > 0,
    ensures
        chunks(first + second, len) == chunks(first, len) + chunks(
            leftover(first, len) + second,
            len,
        ),
        leftover(first + second, len) == leftover(leftover(first, len) + second, len),
    decreases first.len(),
{
    if first.len() < len {
        assert(chunks(first, len) + chunks(first + second, len) =~= chunks(first + second, len));
    } else {
        let whole = first + second;
        assert(whole.take(len as int) =~= first.take(len as int));
        assert(whole.skip(len as int) =~= first.skip(len as int) + second);
        law_chunking_is_streaming(first.skip(len as int), second, len);
    }
}

/// Nothing is lost or reordered at chunk boundaries: the chunks of a stream,
/// put end to end, followed by the leftover, are the stream; and the leftover
/// is shorter than a chunk.
pub proof fn law_chunks_cover_stream<T>(stream: Seq<T>, len: nat)
    requires
        len > 0,
    ensures
        chunks(stream, len).flatten() + leftover(stream, len) == stream,
        leftover(stream, len).len() < len,
        forall|k: int|
            0 <= k < chunks(stream, len).len() ==> (#[trigger] chunks(stream, len)[k]).len()
                == len,
    decreases stream.len(),
{
    if stream.len() >= len {
        let head = stream.take(len as int);
        let tail = stream.skip(len as int);
        law_chunks_cover_stream(tail, len);
        let rest = chunks(tail, len);
        assert((seq![head] + rest).first() == head);
        assert((seq![head] + rest).drop_first() =~= rest);
        assert(head + tail =~= stream);
        assert forall|k: int| 0 <= k < chunks(stream, len).len() implies (#[trigger] chunks(
            stream,
            len,
        )[k]).len() == len by {
            if k > 0 {
                assert(chunks(stream, len)[k] == rest[k - 1]);
            }
        }
    }
}

/// Taking a block apart by channel and putting it together again changes
/// nothing.
pub proof fn law_interleave_inverts_planar<T>(block: Seq<T>, channels: nat, frames: nat)
    requires
        channels > 0,
        block.len() == frames * channels,
    ensures
        interleaved_of(planar_of(block, channels, frames), channels, frames) == block,
        well_shaped(planar_of(block, channels, frames), channels),
{
    let planar = planar_of(block, channels, frames);
    let back = interleaved_of(planar, channels, frames);
    let c = channels as int;
    assert forall|i: int| 0 <= i < back.len() implies back[i] == block[i] by {
        lemma_fundamental_div_mod(i, c);
        lemma_mod_pos_bound(i, c);
        let f = i / c;
        let ch = i % c;
        assert(0 <= f < frames) by (nonlinear_arith)
            requires
                0 <= i < frames * c,
                i == c * f + ch,
                0 <= ch < c,
        ;
        assert(f * c + ch == i) by (nonlinear_arith)
            requires
                i == c * f + ch,
        ;
    }
}

/// The rows of a channel-major block, each as a sequence.
pub open spec fn rows_of<T>(planar: Seq<Vec<T>>) -> Seq<Seq<T>> {
    Seq::new(planar.len(), |ch: int| planar[ch]@)
}

/// What a [`ChunkQueue`] holds, as plain values.
pub struct ChunkQueueView<T> {
    /// Decoded samples not yet handed to the interpolator, interleaved.
    pub backlog: Seq<T>,
    /// Converted samples gathered since the last collection, interleaved.
    pub output: Seq<T>,
    /// Frames per chunk.
    pub frames: nat,
    /// Samples per frame.
    pub channels: nat,
}

/// Samples per chunk.
pub open spec fn chunk_len<T>(q: ChunkQueueView<T>) -> nat {
    q.frames * q.channels
}

/// Whether a full chunk is waiting.
pub open spec fn chunk_ready<T>(q: ChunkQueueView<T>) -> bool {
    q.backlog.len() >= chunk_len(q)
}

/// Whether the queue takes `resampled` as the conversion of its next chunk.
pub open spec fn acceptable<T>(q: ChunkQueueView<T>, resampled: Seq<Seq<T>>) -> bool {
    chunk_ready(q) && well_shaped(resampled, q.channels)
}

/// The queue after it was offered `resampled` as the conversion of its next
/// chunk.
pub open spec fn after_accept<T>(q: ChunkQueueView<T>, resampled: Seq<Seq<T>>) -> ChunkQueueView<
    T,
> {
    if acceptable(q, resampled) {
        ChunkQueueView {
            backlog: q.backlog.skip(chunk_len(q) as int),
            output: q.output + interleaved_of(resampled, q.channels, resampled[0].len()),
            ..q
        }
    } else {
        q
    }
}

/// Whether a last, short chunk is waiting: something is left, and less than
/// a chunk.
pub open spec fn tail_waiting<T>(q: ChunkQueueView<T>) -> bool {
    q.backlog.len() > 0 && !chunk_ready(q)
}

/// Whole frames in the backlog.
pub open spec fn tail_frames<T>(q: ChunkQueueView<T>) -> nat {
    q.backlog.len() / q.channels
}

/// Whether the queue takes `resampled` as the conversion of its tail.
pub open spec fn tail_accepted<T>(q: ChunkQueueView<T>, resampled: Seq<Seq<T>>) -> bool {
    !chunk_ready(q) && well_shaped(resampled, q.channels)
}

/// The queue after it was offered `resampled` as the conversion of its tail.
pub open spec fn after_tail<T>(q: ChunkQueueView<T>, resampled: Seq<Seq<T>>) -> ChunkQueueView<T> {
    if chunk_ready(q) {
        q
    } else {
        ChunkQueueView {
            backlog: Seq::empty(),
            output: if well_shaped(resampled, q.channels) {
                q.output + interleaved_of(resampled, q.channels, resampled[0].len())
            } else {
                q.output
            },
            ..q
        }
    }
}

/// What the converter answers is taken in whole frames: an answer that is
/// accepted, for a chunk or for the tail, adds as many samples to the output
/// as its first row is long, for every channel; so the output grows by a
/// multiple of the channel count, and no frame reaches the ring in part.
pub proof fn law_answers_come_in_whole_frames<T>(q: ChunkQueueView<T>, resampled: Seq<Seq<T>>)
    requires
        q.channels > 0,
    ensures
        acceptable(q, resampled) ==> after_accept(q, resampled).output.len() == q.output.len()
            + resampled[0].len() * q.channels,
        tail_accepted(q, resampled) ==> after_tail(q, resampled).output.len() == q.output.len()
            + resampled[0].len() * q.channels,
        (after_accept(q, resampled).output.len() - q.output.len()) % (q.channels as int) == 0,
        (after_tail(q, resampled).output.len() - q.output.len()) % (q.channels as int) == 0,
{
    if well_shaped(resampled, q.channels) {
        lemma_fundamental_div_mod_converse(
            (resampled[0].len() * q.channels) as int,
            q.channels as int,
            resampled[0].len() as int,
            0,
        );
    }
    lemma_fundamental_div_mod_converse(0, q.channels as int, 0, 0);
}

/// Size of a chunk: a positive number of frames of a positive number of
/// channels, whose product fits the machine.
struct ChunkShape {
    frames: usize,
    channels: usize,
    len: usize,
}

impl ChunkShape {
    #[verifier::type_invariant]
    spec fn inv(self) -> bool {
        &&& self.frames > 0
        &&& self.channels > 0
        &&& self.len == self.frames * self.channels
    }
}

/// Buffer between the decoder and a streaming interpolator that consumes
/// chunks of a fixed number of frames, one row per channel.
///
/// Decoded samples are fed in as they come; whenever a full chunk is waiting
/// it can be handed out, and once its conversion comes back the chunk leaves
/// the backlog. What does not fill a chunk stays for the next packet.
pub struct ChunkQueue<T: Copy> {
    shape: ChunkShape,
    backlog: Vec<T>,
    output: Vec<T>,
}

impl<T: Copy> View for ChunkQueue<T> {
    type V = ChunkQueueView<T>;

    closed spec fn view(&self) -> ChunkQueueView<T> {
        ChunkQueueView {
            backlog: self.backlog@,
            output: self.output@,
            frames: self.shape.frames as nat,
            channels: self.shape.channels as nat,
        }
    }
}

proof fn lemma_cell_index(frame: int, ch: int, frames: int, channels: int)
    requires
        0 <= frame < frames,
        0 <= ch < channels,
    ensures
        0 <= frame * channels + ch < frames * channels,
        (frame * channels + ch) / channels == frame,
        (frame * channels + ch) % channels == ch,
        frame * channels + channels == (frame + 1) * channels,
{
    assert(0 <= frame * channels + ch < frames * channels) by (nonlinear_arith)
        requires
            0 <= frame < frames,
            0 <= ch < channels,
    ;
    assert(frame * channels + channels == (frame + 1) * channels) by (nonlinear_arith);
    lemma_fundamental_div_mod_converse(frame * channels + ch, channels, frame, ch);
}

impl<T: Copy> ChunkQueue<T> {
    /// An empty queue for chunks of `frames` frames of `channels` channels, or
    /// nothing where either is zero or a chunk would not fit the machine.
    pub fn new(frames: usize, channels: usize) -> (queue: Option<Self>)
        ensures
            queue is Some <==> frames > 0 && channels > 0 && frames * channels <= usize::MAX,
            queue is Some ==> queue->0@ == (ChunkQueueView {
                backlog: Seq::<T>::empty(),
                output: Seq::<T>::empty(),
                frames: frames as nat,
                channels: channels as nat,
            }),
    {
        if frames == 0 || channels == 0 {
            return None;
        }
        match frames.checked_mul(channels) {
            Some(len) => Some(
                ChunkQueue {
                    shape: ChunkShape { frames, channels, len },
                    backlog: Vec::new(),
                    output: Vec::new(),
                },
            ),
            None => None,
        }
    }

    /// Frames per chunk.
    pub fn chunk_frames(&self) -> (n: usize)
        ensures
            n == self@.frames,
            n > 0,
    {
        proof {
            use_type_invariant(&self.shape);
        }
        self.shape.frames
    }

    /// Samples per frame.
    pub fn channels(&self) -> (n: usize)
        ensures
            n == self@.channels,
            n > 0,
    {
        proof {
            use_type_invariant(&self.shape);
        }
        self.shape.channels
    }

    /// Number of samples waiting in the backlog.
    pub fn backlog_len(&self) -> (n: usize)
        ensures
            n == self@.backlog.len(),
    {
        self.backlog.len()
    }

    /// Number of converted samples gathered and not yet collected.
    pub fn output_len(&self) -> (n: usize)
        ensures
            n == self@.output.len(),
    {
        self.output.len()
    }

    /// Puts decoded samples behind the backlog.
    pub fn feed(&mut self, samples: &[T])
        ensures
            final(self)@ == (ChunkQueueView {
                backlog: old(self)@.backlog + samples@,
                ..old(self)@
            }),
    {
        let ghost before = self@;
        let n = samples.len();
        let mut i: usize = 0;
        while i < n
            invariant
                i <= n,
                n == samples@.len(),
                self@ == (ChunkQueueView { backlog: self@.backlog, ..before }),
                self@.backlog == before.backlog + samples@.take(i as int),
            decreases n - i,
        {
            let ghost so_far = self@.backlog;
            self.backlog.push(samples[i]);
            i = i + 1;
            assert(so_far.push(samples@[i - 1]) =~= before.backlog + samples@.take(i as int));
        }
        assert(samples@.take(n as int) =~= samples@);
    }

    /// Whether a full chunk is waiting.
    pub fn ready(&self) -> (b: bool)
        ensures
            b == chunk_ready(self@),
    {
        proof {
            use_type_invariant(&self.shape);
        }
        self.backlog.len() >= self.shape.len
    }

    /// The first `frames` frames of the backlog, one row per channel.
    fn planar(&self, frames: usize) -> (planar: Vec<Vec<T>>)
        requires
            frames * self@.channels <= self@.backlog.len(),
        ensures
            rows_of(planar@) == planar_of(
                self@.backlog.take(frames * self@.channels),
                self@.channels,
                frames as nat,
            ),
    {
        proof {
            use_type_invariant(&self.shape);
        }
        let channels = self.shape.channels;
        let len = self.backlog.len();
        let ghost block = self@.backlog.take(frames * channels);
        let mut planar: Vec<Vec<T>> = Vec::with_capacity(channels);
        let mut ch: usize = 0;
        while ch < channels
            invariant
                ch <= channels == self@.channels,
                channels > 0,
                frames * channels <= len == self.backlog@.len(),
                block == self.backlog@.take(frames * channels),
                planar@.len() == ch,
                forall|c: int|
                    0 <= c < ch ==> (#[trigger] planar@[c])@ == Seq::new(
                        frames as nat,
                        |f: int| block[f * channels + c],
                    ),
            decreases channels - ch,
        {
            let mut row: Vec<T> = Vec::with_capacity(frames);
            let mut f: usize = 0;
            while f < frames
                invariant
                    f <= frames,
                    ch < channels,
                    frames * channels <= len == self.backlog@.len(),
                    block == self.backlog@.take(frames * channels),
                    row@.len() == f,
                    forall|g: int| 0 <= g < f ==> row@[g] == block[g * channels + ch],
                decreases frames - f,
            {
                proof {
                    lemma_cell_index(f as int, ch as int, frames as int, channels as int);
                }
                row.push(self.backlog[f * channels + ch]);
                f = f + 1;
            }
            planar.push(row);
            ch = ch + 1;
        }
        assert(rows_of(planar@) =~= planar_of(block, channels as nat, frames as nat));
        planar
    }

    /// Interleaves the first `channels` rows of `resampled`, cut to the length
    /// of the first, behind the output; where a row is missing or shorter than
    /// the first, nothing changes and the answer is `false`.
    fn gather(&mut self, resampled: &Vec<Vec<T>>) -> (gathered: bool)
        ensures
            gathered == well_shaped(rows_of(resampled@), old(self)@.channels),
            final(self)@ == if gathered {
                ChunkQueueView {
                    output: old(self)@.output + interleaved_of(
                        rows_of(resampled@),
                        old(self)@.channels,
                        rows_of(resampled@)[0].len(),
                    ),
                    ..old(self)@
                }
            } else {
                old(self)@
            },
    {
        proof {
            use_type_invariant(&self.shape);
        }
        let ghost before = self@;
        let ghost rows = rows_of(resampled@);
        let channels = self.shape.channels;
        if resampled.len() < channels {
            return false;
        }
        let out_frames = resampled[0].len();
        let mut ch: usize = 0;
        while ch < channels
            invariant
                ch <= channels <= resampled@.len(),
                0 < channels == before.channels,
                out_frames == resampled@[0]@.len(),
                rows == rows_of(resampled@),
                self@ == before,
                forall|c: int| 0 <= c < ch ==> rows[0].len() <= (#[trigger] rows[c]).len(),
            decreases channels - ch,
        {
            if resampled[ch].len() < out_frames {
                assert(rows[ch as int].len() < rows[0].len());
                return false;
            }
            ch = ch + 1;
        }
        let ghost mixed = interleaved_of(rows, channels as nat, out_frames as nat);
        let mut frame: usize = 0;
        assert(self@.output =~= before.output + mixed.take(0));
        while frame < out_frames
            invariant
                frame <= out_frames,
                channels > 0,
                channels <= resampled@.len(),
                out_frames == resampled@[0]@.len(),
                rows == rows_of(resampled@),
                well_shaped(rows, channels as nat),
                mixed == interleaved_of(rows, channels as nat, out_frames as nat),
                self@ == (ChunkQueueView { output: self@.output, ..before }),
                self@.output == before.output + mixed.take(frame * channels),
            decreases out_frames - frame,
        {
            let mut c: usize = 0;
            while c < channels
                invariant
                    c <= channels,
                    frame < out_frames,
                    channels > 0,
                    channels <= resampled@.len(),
                    out_frames == resampled@[0]@.len(),
                    rows == rows_of(resampled@),
                    well_shaped(rows, channels as nat),
                    mixed == interleaved_of(rows, channels as nat, out_frames as nat),
                    self@ == (ChunkQueueView { output: self@.output, ..before }),
                    self@.output == before.output + mixed.take(frame * channels + c),
                decreases channels - c,
            {
                proof {
                    lemma_cell_index(frame as int, c as int, out_frames as int, channels as int);
                    assert(rows[c as int].len() >= out_frames);
                }
                let ghost so_far = self@.output;
                let sample = resampled[c][frame];
                self.output.push(sample);
                assert(so_far.push(sample) =~= before.output + mixed.take(
                    frame * channels + c + 1,
                ));
                c = c + 1;
            }
            proof {
                lemma_cell_index(frame as int, 0, out_frames as int, channels as int);
            }
            frame = frame + 1;
        }
        assert(mixed.take(out_frames * channels) =~= mixed);
        true
    }

    /// The next chunk, one row per channel, or nothing while the backlog is
    /// shorter than a chunk. The chunk stays in the backlog until its
    /// conversion is accepted.
    pub fn chunk(&self) -> (planar: Option<Vec<Vec<T>>>)
        ensures
            planar is Some <==> chunk_ready(self@),
            planar is Some ==> rows_of(planar->0@) == planar_of(
                self@.backlog.take(chunk_len(self@) as int),
                self@.channels,
                self@.frames,
            ),
    {
        proof {
            use_type_invariant(&self.shape);
        }
        if self.backlog.len() < self.shape.len {
            return None;
        }
        Some(self.planar(self.shape.frames))
    }

    /// Takes `resampled` as the conversion of the next chunk: its first
    /// `channels` rows, cut to the length of the first, are interleaved behind
    /// the output, and the chunk leaves the backlog. Where no chunk is waiting,
    /// or a row is missing or shorter than the first, nothing changes and the
    /// answer is `false`.
    pub fn accept(&mut self, resampled: &Vec<Vec<T>>) -> (accepted: bool)
        ensures
            accepted == acceptable(old(self)@, rows_of(resampled@)),
            final(self)@ == after_accept(old(self)@, rows_of(resampled@)),
    {
        proof {
            use_type_invariant(&self.shape);
        }
        if self.backlog.len() < self.shape.len {
            return false;
        }
        if !self.gather(resampled) {
            return false;
        }
        proof {
            use_type_invariant(&self.shape);
        }
        let rest = self.backlog.split_off(self.shape.len);
        self.backlog = rest;
        assert(self@.backlog =~= old(self)@.backlog.skip(chunk_len(old(self)@) as int));
        true
    }

    /// What is left in the backlog when the stream has ended: the whole frames
    /// of a last chunk that is shorter than the others, one row per channel.
    /// Nothing while a full chunk is waiting, or when nothing is left.
    pub fn tail(&self) -> (planar: Option<Vec<Vec<T>>>)
        ensures
            planar is Some <==> tail_waiting(self@),
            planar is Some ==> rows_of(planar->0@) == planar_of(
                self@.backlog.take((tail_frames(self@) * self@.channels) as int),
                self@.channels,
                tail_frames(self@),
            ),
    {
        proof {
            use_type_invariant(&self.shape);
        }
        if self.backlog.len() == 0 || self.backlog.len() >= self.shape.len {
            return None;
        }
        let frames = self.backlog.len() / self.shape.channels;
        proof {
            lemma_fundamental_div_mod(self.backlog@.len() as int, self.shape.channels as int);
            lemma_mod_pos_bound(self.backlog@.len() as int, self.shape.channels as int);
            assert(frames * self.shape.channels == self.shape.channels * frames)
                by (nonlinear_arith);
        }
        Some(self.planar(frames))
    }

    /// Takes `resampled` as the conversion of the tail and empties the
    /// backlog: the stream has ended, and what the converter has not used it
    /// will not use. The rows are interleaved behind the output as for a
    /// chunk; where a row is missing or shorter than the first the tail goes
    /// unconverted and the answer is `false`. While a full chunk is waiting
    /// nothing changes.
    pub fn accept_tail(&mut self, resampled: &Vec<Vec<T>>) -> (accepted: bool)
        ensures
            accepted == tail_accepted(old(self)@, rows_of(resampled@)),
            final(self)@ == after_tail(old(self)@, rows_of(resampled@)),
            !chunk_ready(old(self)@) ==> final(self)@.backlog.len() == 0,
    {
        proof {
            use_type_invariant(&self.shape);
        }
        if self.backlog.len() >= self.shape.len {
            return false;
        }
        let accepted = self.gather(resampled);
        self.backlog = Vec::new();
        accepted
    }

    /// Hands out the converted samples gathered so far and starts over with
    /// none.
    pub fn take_output(&mut self) -> (samples: Vec<T>)
        ensures
            samples@ == old(self)@.output,
            final(self)@ == (ChunkQueueView { output: Seq::<T>::empty(), ..old(self)@ }),
    {
        let mut samples: Vec<T> = Vec::new();
        core::mem::swap(&mut samples, &mut self.output);
        samples
    }

    /// Drops backlog and output, as after a jump in the stream.
    pub fn reset(&mut self)
        ensures
            final(self)@ == (ChunkQueueView {
                backlog: Seq::<T>::empty(),
                output: Seq::<T>::empty(),
                ..old(self)@
            }),
    {
        self.backlog = Vec::new();
        self.output = Vec::new();
    }
}

} // verus!
