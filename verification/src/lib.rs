//! Core of a streaming audio player: the sample transport between decoder and
//! output device, the playback controls, the bookkeeping of the decode loop and
//! of a network download, and the small parsers around them.
//!
//! Samples are opaque to this crate: every type that carries them is generic
//! over the sample type, so that the caller decides how audio is represented.
//! Nothing here waits, sleeps, reads a file or talks to a device: the caller
//! does that, and is told at each step what is due.

pub mod control;
pub mod display;
pub mod input;
pub mod linear;
pub mod net;
pub mod play;
pub mod playlist;
pub mod remote;
pub mod resample;
pub mod ring;
pub mod source;
pub mod stream;
pub mod target;
pub mod text;
pub mod transport;
