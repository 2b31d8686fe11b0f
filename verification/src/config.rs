//! Plain configuration values shared with the shell around the library.

use vstd::prelude::*;

verus! {

/// Repeat mode for audio playback.
#[derive(Debug, Default, Clone, Copy, Eq, PartialEq, Structural)]
pub enum RepeatMode {
    #[default]
    Off,
    One,
    All,
}

/// A recently viewed artist, kept for quick navigation.
#[derive(Debug, Clone)]
pub struct RecentArtist {
    pub id: u64,
    pub username: String,
    pub avatar_url: Option<String>,
}

} // verus!
