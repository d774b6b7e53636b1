//! What is known of a source once its container has been probed: which track
//! to decode, at which rate, with how many channels.

use vstd::prelude::*;

verus! {

/// Channel count taken where the container names none.
pub const DEFAULT_CHANNELS: u16 = 2;

/// Why a source cannot be played.
#[derive(Clone, Copy, Debug, PartialEq, Eq, Structural)]
pub enum ProbeError {
    /// The container was not recognised or could not be read.
    ProbeFailed,
    /// No track has a codec that can be decoded.
    NoDecodableTrack,
    /// The chosen track does not say at which rate it was sampled.
    UnknownSampleRate,
}

/// One track of a container, as far as choosing among tracks goes.
#[derive(Clone, Copy, Debug, PartialEq, Eq, Structural)]
pub struct TrackInfo {
    /// The container's number for the track.
    pub id: u32,
    /// Whether the track's codec is one that can be decoded.
    pub decodable: bool,
    /// Samples per second, where the container says.
    pub sample_rate: Option<u32>,
    /// Number of channels, where the container says.
    pub channels: Option<u16>,
}

/// The track that is played, and how.
#[derive(Clone, Copy, Debug, PartialEq, Eq, Structural)]
pub struct Selection {
    pub track_id: u32,
    pub sample_rate: u32,
    pub channels: u16,
}

/// Place of the first decodable track, or the number of tracks if none is.
pub open spec fn first_decodable(tracks: Seq<TrackInfo>) -> int
    decreases tracks.len(),
{
    if tracks.len() == 0 || tracks[0].decodable {
        0
    } else {
        1 + first_decodable(tracks.skip(1))
    }
}

/// The choice among `tracks`: the first decodable one, at its own rate, with
/// its own channel count or the default.
pub open spec fn selection(tracks: Seq<TrackInfo>) -> Result<Selection, ProbeError> {
    let at = first_decodable(tracks);
    if at >= tracks.len() {
        Err(ProbeError::NoDecodableTrack)
    } else {
        match tracks[at].sample_rate {
            None => Err(ProbeError::UnknownSampleRate),
            Some(sample_rate) => Ok(
                Selection {
                    track_id: tracks[at].id,
                    sample_rate,
                    channels: match tracks[at].channels {
                        Some(channels) => channels,
                        None => DEFAULT_CHANNELS,
                    },
                },
            ),
        }
    }
}

proof fn lemma_first_decodable(tracks: Seq<TrackInfo>, at: int)
    requires
        0 <= at <= tracks.len(),
        forall|j: int| 0 <= j < at ==> !tracks[j].decodable,
        at == tracks.len() || tracks[at].decodable,
    ensures
        first_decodable(tracks) == at,
    decreases tracks.len(),
{
    if at > 0 {
        lemma_first_decodable(tracks.skip(1), at - 1);
    }
}

/// Chooses the track to play.
pub fn select_track(tracks: &[TrackInfo]) -> (r: Result<Selection, ProbeError>)
    ensures
        r == selection(tracks@),
{
    let mut at: usize = 0;
    while at < tracks.len() && !tracks[at].decodable
        invariant
            at <= tracks@.len(),
            forall|j: int| 0 <= j < at ==> !tracks@[j].decodable,
        decreases tracks@.len() - at,
    {
        at = at + 1;
    }
    proof {
        lemma_first_decodable(tracks@, at as int);
    }
    if at >= tracks.len() {
        return Err(ProbeError::NoDecodableTrack);
    }
    let track = tracks[at];
    match track.sample_rate {
        None => Err(ProbeError::UnknownSampleRate),
        Some(sample_rate) => Ok(
            Selection {
                track_id: track.id,
                sample_rate,
                channels: match track.channels {
                    Some(channels) => channels,
                    None => DEFAULT_CHANNELS,
                },
            },
        ),
    }
}

/// A source that has been opened and probed, ready to be played.
#[derive(Debug, Clone, PartialEq, Eq)]
pub struct Player {
    /// The container's number for the track that is played.
    pub track_id: u32,
    /// Samples per second of that track.
    pub sample_rate: u32,
    /// Channels of that track.
    pub channels: u16,
    /// Where the source came from: a path or a URL.
    pub path: String,
}

/// What probing `path` comes to, given the tracks that were found, or none
/// where the container could not be probed.
pub open spec fn opened(probed: Option<Seq<TrackInfo>>) -> Result<Selection, ProbeError> {
    match probed {
        None => Err(ProbeError::ProbeFailed),
        Some(tracks) => selection(tracks),
    }
}

impl Player {
    /// Makes a source of what probing found: `probed` holds the container's
    /// tracks, or nothing where the container could not be probed.
    pub fn new(path: String, probed: Option<&[TrackInfo]>) -> (r: Result<Player, ProbeError>)
        ensures
            match (r, opened(
                match probed {
                    Some(tracks) => Some(tracks@),
                    None => None,
                },
            )) {
                (Ok(player), Ok(chosen)) => player.path == path && player.track_id
                    == chosen.track_id && player.sample_rate == chosen.sample_rate
                    && player.channels == chosen.channels,
                (Err(e), Err(expected)) => e == expected,
                _ => false,
            },
    {
        match probed {
            None => Err(ProbeError::ProbeFailed),
            Some(tracks) => match select_track(tracks) {
                Ok(chosen) => Ok(
                    Player {
                        track_id: chosen.track_id,
                        sample_rate: chosen.sample_rate,
                        channels: chosen.channels,
                        path,
                    },
                ),
                Err(e) => Err(e),
            },
        }
    }

    /// Samples per second of the track that is played.
    pub fn sample_rate(&self) -> (rate: u32)
        ensures
            rate == self.sample_rate,
    {
        self.sample_rate
    }

    /// Channels of the track that is played.
    pub fn channels(&self) -> (channels: u16)
        ensures
            channels == self.channels,
    {
        self.channels
    }
}

} // verus!
