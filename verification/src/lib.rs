//! A verified core for a streaming audio playback engine.
//!
//! The library contains the decision logic of a player worker: a media
//! manifest parser, the commercial-DRM classification rule, the disk-cache
//! naming scheme, the stream-resolver output interpretation, the reading
//! of the sound server's volume report, and the playback state machine
//! that turns commands and I/O outcomes into events and follow-up
//! actions. All I/O (HTTP, audio output, the file system, the
//! resolver subprocess) is performed by an unverified shell around the
//! library, which feeds results back in as plain values.

pub mod cache;
pub mod config;
pub mod hls;
pub mod player;
pub mod resolver;
pub mod text;
pub mod track;
pub mod volume;
