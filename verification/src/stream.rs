//! The bytes of a download, between the task that receives them and the
//! decoder that reads them.

use std::collections::VecDeque;
use vstd::prelude::*;
use crate::net::NetworkError;
use crate::text::str_view;
use crate::text::text_view;
use crate::text::same_text;

verus! {

/// Bytes that are gathered before the stream is probed.
pub const PREBUFFER_BYTES: usize = 65536;

/// Bytes at the head of the stream that are looked at to tell its kind.
pub const SNIFF_BYTES: usize = 2000;

/// The kinds of stream that are played.
#[derive(Clone, Copy, Debug, PartialEq, Eq, Structural)]
pub enum StreamKind {
    Mp3,
    Flac,
    Ogg,
    Wav,
    Aac,
    M4a,
}

/// The file extension that names a kind of stream to the prober.
pub open spec fn spec_extension(kind: StreamKind) -> Seq<char> {
    match kind {
        StreamKind::Mp3 => "mp3"@,
        StreamKind::Flac => "flac"@,
        StreamKind::Ogg => "ogg"@,
        StreamKind::Wav => "wav"@,
        StreamKind::Aac => "aac"@,
        StreamKind::M4a => "m4a"@,
    }
}

impl StreamKind {
    /// The file extension that names this kind of stream to the prober.
    pub fn extension(&self) -> (ext: &'static str)
        ensures
            ext@ == spec_extension(*self),
    {
        match self {
            StreamKind::Mp3 => "mp3",
            StreamKind::Flac => "flac",
            StreamKind::Ogg => "ogg",
            StreamKind::Wav => "wav",
            StreamKind::Aac => "aac",
            StreamKind::M4a => "m4a",
        }
    }
}

/// The kind of stream that a media type stands for, if it is one that is
/// played. FLAC, WAV and MP4 audio go by two names each.
pub open spec fn kind_of_mime(mime: Seq<char>) -> Option<StreamKind> {
    if mime == "audio/mpeg"@ {
        Some(StreamKind::Mp3)
    } else if mime == "audio/flac"@ || mime == "audio/x-flac"@ {
        Some(StreamKind::Flac)
    } else if mime == "audio/ogg"@ {
        Some(StreamKind::Ogg)
    } else if mime == "audio/wav"@ || mime == "audio/x-wav"@ {
        Some(StreamKind::Wav)
    } else if mime == "audio/aac"@ {
        Some(StreamKind::Aac)
    } else if mime == "audio/mp4"@ || mime == "audio/m4a"@ {
        Some(StreamKind::M4a)
    } else {
        None
    }
}

/// What the media type found at the head of a stream means for probing it:
/// where none was found, the prober goes without a hint; a type that is
/// played becomes the hint; any other ends the attempt.
pub open spec fn hint_with(sniffed: Option<Seq<char>>) -> Result<Option<StreamKind>, NetworkError> {
    match sniffed {
        None => Ok(None),
        Some(mime) => match kind_of_mime(mime) {
            Some(kind) => Ok(Some(kind)),
            None => Err(NetworkError::UnsupportedStreamType),
        },
    }
}

/// The media type that `infer::get` tells from the bytes `head`, or nothing
/// where it knows none.
pub uninterp spec fn sniffed_mime(head: Seq<u8>) -> Option<Seq<char>>;

/// Asks `infer::get` what `head` is and hands out the media type of its
/// answer as text. Nothing is claimed of the answer but that it is what
/// `infer` tells from these bytes.
#[verifier::external_body]
fn sniff_mime(head: &[u8]) -> (mime: Option<String>)
    ensures
        text_view(mime) == sniffed_mime(head@),
{
    match infer::get(head) {
        Some(kind) => Some(kind.mime_type().to_string()),
        None => None,
    }
}

/// The kind of stream that a media type stands for, if it is one that is
/// played.
pub fn kind_for_mime(mime: &str) -> (kind: Option<StreamKind>)
    ensures
        kind == kind_of_mime(mime@),
{
    if same_text(mime, "audio/mpeg") {
        Some(StreamKind::Mp3)
    } else if same_text(mime, "audio/flac") || same_text(mime, "audio/x-flac") {
        Some(StreamKind::Flac)
    } else if same_text(mime, "audio/ogg") {
        Some(StreamKind::Ogg)
    } else if same_text(mime, "audio/wav") || same_text(mime, "audio/x-wav") {
        Some(StreamKind::Wav)
    } else if same_text(mime, "audio/aac") {
        Some(StreamKind::Aac)
    } else if same_text(mime, "audio/mp4") || same_text(mime, "audio/m4a") {
        Some(StreamKind::M4a)
    } else {
        None
    }
}

/// What the media type found at the head of a stream means for probing it.
pub fn stream_hint_with(sniffed: Option<&str>) -> (r: Result<Option<StreamKind>, NetworkError>)
    ensures
        r == hint_with(
            str_view(sniffed),
        ),
{
    match sniffed {
        None => Ok(None),
        Some(mime) => match kind_for_mime(mime) {
            Some(kind) => Ok(Some(kind)),
            None => Err(NetworkError::UnsupportedStreamType),
        },
    }
}

/// What is due while waiting for bytes.
#[derive(Clone, Copy, Debug, PartialEq, Eq, Structural)]
pub enum Wait {
    /// Enough has arrived, or the stream has ended: go on.
    Ready,
    /// Not yet: sleep a moment and ask again.
    Sleep,
    /// Not yet, and the time allowed is over.
    TimedOut,
}

/// What a read came to.
#[derive(Clone, Copy, Debug, PartialEq, Eq, Structural)]
pub enum Read {
    /// That many bytes were copied to the front of the buffer.
    Data(usize),
    /// Nothing is buffered and the stream has ended.
    End,
    /// Nothing is buffered yet: wait for a byte, then read again.
    Wait,
}

/// A [`StreamReader`] as plain values.
pub struct StreamView {
    /// Bytes received and not yet read, oldest first.
    pub buffered: Seq<u8>,
    /// Whether the download has ended.
    pub eof: bool,
}

/// What is due while waiting for `min_size` bytes, given whether the time
/// allowed is over.
pub open spec fn wait_status(s: StreamView, min_size: nat, expired: bool) -> Wait {
    if s.buffered.len() >= min_size || s.eof {
        Wait::Ready
    } else if expired {
        Wait::TimedOut
    } else {
        Wait::Sleep
    }
}

/// Whether probing may begin, given whether the time allowed for gathering
/// `threshold` bytes is over. It may once the threshold is reached or the
/// stream has ended; when time is up it goes ahead with what has arrived, and
/// fails if that is nothing.
pub open spec fn prebuffer_status(s: StreamView, threshold: nat, expired: bool) -> Result<
    bool,
    NetworkError,
> {
    if s.buffered.len() >= threshold || s.eof {
        Ok(true)
    } else if !expired {
        Ok(false)
    } else if s.buffered.len() == 0 {
        Err(NetworkError::BufferTimeout)
    } else {
        Ok(true)
    }
}

/// Number of bytes that a read into a buffer of `want` bytes copies.
pub open spec fn read_len(s: StreamView, want: nat) -> nat {
    if s.buffered.len() < want {
        s.buffered.len()
    } else {
        want
    }
}

/// What a read into a buffer of `want` bytes comes to.
pub open spec fn read_outcome(s: StreamView, want: nat) -> Read {
    if s.buffered.len() > 0 {
        Read::Data(read_len(s, want) as usize)
    } else if s.eof {
        Read::End
    } else {
        Read::Wait
    }
}

/// The stream after a read into a buffer of `want` bytes.
pub open spec fn after_read(s: StreamView, want: nat) -> StreamView {
    StreamView { buffered: s.buffered.skip(read_len(s, want) as int), ..s }
}

/// The bytes that a run of reads hands out, put end to end; `wants` holds the
/// sizes of the buffers read into.
pub open spec fn bytes_read(s: StreamView, wants: Seq<nat>) -> Seq<u8>
    decreases wants.len(),
{
    if wants.len() == 0 {
        Seq::empty()
    } else {
        s.buffered.take(read_len(s, wants[0]) as int) + bytes_read(
            after_read(s, wants[0]),
            wants.drop_first(),
        )
    }
}

/// The stream after a run of reads.
pub open spec fn after_reads(s: StreamView, wants: Seq<nat>) -> StreamView
    decreases wants.len(),
{
    if wants.len() == 0 {
        s
    } else {
        after_reads(after_read(s, wants[0]), wants.drop_first())
    }
}

/// Reads hand the bytes out in the order in which they arrived, each once:
/// whatever the sizes of the buffers read into, what the reads hand out,
/// followed by what is still buffered, is what was buffered before.
pub proof fn law_reads_keep_order(s: StreamView, wants: Seq<nat>)
    ensures
        bytes_read(s, wants) + after_reads(s, wants).buffered == s.buffered,
    decreases wants.len(),
{
    if wants.len() > 0 {
        let n = read_len(s, wants[0]) as int;
        law_reads_keep_order(after_read(s, wants[0]), wants.drop_first());
        assert(s.buffered.take(n) + s.buffered.skip(n) =~= s.buffered);
        assert(s.buffered.take(n) + bytes_read(after_read(s, wants[0]), wants.drop_first())
            + after_reads(s, wants).buffered =~= s.buffered.take(n) + (bytes_read(
            after_read(s, wants[0]),
            wants.drop_first(),
        ) + after_reads(s, wants).buffered));
    } else {
        assert(bytes_read(s, wants) + s.buffered =~= s.buffered);
    }
}

/// The head of the stream that is looked at to tell its kind.
pub open spec fn sniff_head(s: StreamView) -> Seq<u8> {
    if s.buffered.len() < SNIFF_BYTES {
        s.buffered
    } else {
        s.buffered.take(SNIFF_BYTES as int)
    }
}

/// The bytes of a download that have arrived and have not been read: filled
/// chunk by chunk as they come, emptied by the decoder's reads.
pub struct StreamReader {
    queue: VecDeque<u8>,
    eof: bool,
}

impl View for StreamReader {
    type V = StreamView;

    closed spec fn view(&self) -> StreamView {
        StreamView { buffered: self.queue@, eof: self.eof }
    }
}

impl StreamReader {
    /// A reader with nothing buffered, of a download that is under way.
    pub fn new() -> (reader: Self)
        ensures
            reader@ == (StreamView { buffered: Seq::empty(), eof: false }),
    {
        StreamReader { queue: VecDeque::new(), eof: false }
    }

    /// A download cannot be repositioned.
    pub fn is_seekable(&self) -> (b: bool)
        ensures
            !b,
    {
        false
    }

    /// The length of a download is not known to its reader.
    pub fn byte_len(&self) -> (len: Option<u64>)
        ensures
            len is None,
    {
        None
    }

    /// Number of bytes buffered.
    pub fn buffered_len(&self) -> (n: usize)
        ensures
            n == self@.buffered.len(),
    {
        self.queue.len()
    }

    /// Whether the download has ended.
    pub fn is_eof(&self) -> (b: bool)
        ensures
            b == self@.eof,
    {
        self.eof
    }

    /// Puts a received chunk behind what is buffered.
    pub fn push_chunk(&mut self, chunk: &[u8])
        ensures
            final(self)@ == (StreamView {
                buffered: old(self)@.buffered + chunk@,
                ..old(self)@
            }),
    {
        let ghost before = self@;
        let n = chunk.len();
        let mut i: usize = 0;
        while i < n
            invariant
                i <= n == chunk@.len(),
                self@.eof == before.eof,
                self@.buffered == before.buffered + chunk@.take(i as int),
            decreases n - i,
        {
            self.queue.push_back(chunk[i]);
            i = i + 1;
        }
        assert(chunk@.take(n as int) =~= chunk@);
    }

    /// Records that the download has ended: nothing more will arrive.
    pub fn close(&mut self)
        ensures
            final(self)@ == (StreamView { eof: true, ..old(self)@ }),
    {
        self.eof = true;
    }

    /// What is due while waiting for `min_size` bytes; `expired` says
    /// whether the time allowed is over.
    pub fn wait_for_data(&self, min_size: usize, expired: bool) -> (wait: Wait)
        ensures
            wait == wait_status(self@, min_size as nat, expired),
    {
        if self.queue.len() >= min_size || self.eof {
            Wait::Ready
        } else if expired {
            Wait::TimedOut
        } else {
            Wait::Sleep
        }
    }

    /// Whether probing may begin; `expired` says whether the time allowed
    /// for gathering `threshold` bytes is over.
    pub fn prebuffer(&self, threshold: usize, expired: bool) -> (r: Result<bool, NetworkError>)
        ensures
            r == prebuffer_status(self@, threshold as nat, expired),
    {
        if self.queue.len() >= threshold || self.eof {
            Ok(true)
        } else if !expired {
            Ok(false)
        } else if self.queue.len() == 0 {
            Err(NetworkError::BufferTimeout)
        } else {
            Ok(true)
        }
    }

    /// Copies buffered bytes to the front of `buf`, as many as there are and
    /// `buf` holds, and takes them out of the buffer. Never waits: where
    /// nothing is buffered it says whether the stream has ended or the caller
    /// is to wait.
    pub fn read(&mut self, buf: &mut [u8]) -> (r: Read)
        ensures
            r == read_outcome(old(self)@, old(buf)@.len()),
            final(self)@ == after_read(old(self)@, old(buf)@.len()),
            final(buf)@ == old(self)@.buffered.take(read_len(old(self)@, old(buf)@.len()) as int)
                + old(buf)@.skip(read_len(old(self)@, old(buf)@.len()) as int),
    {
        let ghost before = self@;
        let ghost out = buf@;
        assert(before.buffered.skip(0) =~= before.buffered);
        if self.queue.len() == 0 {
            return if self.eof {
                Read::End
            } else {
                Read::Wait
            };
        }
        let want = buf.len();
        let n = if self.queue.len() < want {
            self.queue.len()
        } else {
            want
        };
        let mut i: usize = 0;
        while i < n
            invariant
                i <= n <= want == out.len(),
                n <= before.buffered.len(),
                buf@.len() == want,
                self@.eof == before.eof,
                self@.buffered == before.buffered.skip(i as int),
                buf@ == before.buffered.take(i as int) + out.skip(i as int),
            decreases n - i,
        {
            match self.queue.pop_front() {
                Some(byte) => {
                    buf[i] = byte;
                },
                None => {},
            }
            i = i + 1;
        }
        Read::Data(n)
    }

    /// The kind of stream that the buffered head announces, as a hint for the
    /// prober; no hint where the head tells nothing; an error where it
    /// announces a kind that is not played.
    pub fn stream_hint(&self) -> (r: Result<Option<StreamKind>, NetworkError>)
        ensures
            r == hint_with(sniffed_mime(sniff_head(self@))),
    {
        let n = if self.queue.len() < SNIFF_BYTES {
            self.queue.len()
        } else {
            SNIFF_BYTES
        };
        let mut head: Vec<u8> = Vec::new();
        let mut i: usize = 0;
        while i < n
            invariant
                i <= n <= self.queue@.len(),
                head@ == self.queue@.take(i as int),
            decreases n - i,
        {
            head.push(self.queue[i]);
            i = i + 1;
        }
        assert(head@ =~= sniff_head(self@));
        let mime = sniff_mime(head.as_slice());
        match &mime {
            Some(mime) => stream_hint_with(Some(mime.as_str())),
            None => stream_hint_with(None),
        }
    }
}

} // verus!
