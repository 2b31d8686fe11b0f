//! The playback engine's decision core, as a verified state machine.
//!
//! The engine owns no I/O. Each command or I/O outcome is applied to the
//! state by a transition function that returns the events to emit and the
//! follow-up actions to perform. An unverified worker loop around the
//! library performs the actions (HTTP fetches, cache reads and writes, the
//! resolver subprocess, audio decoding and output) and feeds their results
//! back in. Time is a millisecond clock value passed in by the caller,
//! volume is measured in thousandths of full scale, and URLs and display
//! messages travel as UTF-8 bytes.

use vstd::prelude::*;
use vstd::string::*;
use crate::hls::{
    parse_media_playlist, spec_is_commercial_drm, spec_parse_manifest, is_commercial_drm,
    HlsStreamView, ManifestError,
};
use crate::text::{contains_seq, contains_sub, copy_bytes};

verus! {

/// Commands sent to the engine's mailbox.
#[derive(Debug, Clone, PartialEq, Eq)]
pub enum AudioCommand {
    /// Play from a stream URL, with an optional track id for cache lookup.
    Play { track_id: Option<u64>, stream_url: Vec<u8>, permalink_url: Option<Vec<u8>> },
    /// Fetch and cache a track's audio without playing it.
    Preload { track_id: u64, stream_url: Vec<u8>, permalink_url: Option<Vec<u8>> },
    /// Pause playback.
    Pause,
    /// Resume playback.
    Resume,
    /// Stop playback completely.
    Stop,
    /// Set volume, in thousandths of full scale; clamped to 0..=1000.
    SetVolume(i64),
}

/// Events the engine emits.
#[derive(Debug, Clone, PartialEq, Eq)]
pub enum AudioEvent {
    /// The worker is up and owns an output device.
    Ready,
    /// Playback started or resumed.
    Playing,
    /// Playback paused.
    Paused,
    /// Playback stopped by request.
    Stopped,
    /// The track played to its end.
    Finished,
    /// Buffering state changed.
    Buffering(bool),
    /// An operation failed; the message is for display.
    Error(Vec<u8>),
    /// The stream needs a licensed decryption module; the track URL can be
    /// opened in a browser instead.
    DrmProtected { drm_type: Vec<u8>, track_url: Vec<u8> },
    /// Elapsed playback time, in milliseconds.
    Position(u64),
    /// A preload finished and the track is cached.
    PreloadComplete(u64),
}

/// I/O the engine asks its caller to perform.
#[derive(Debug, Clone, PartialEq, Eq)]
pub enum Action {
    /// Read the cached bytes for a track, if present.
    ReadCache(u64),
    /// Check whether a track is cached.
    ProbeCache(u64),
    /// Remove a track's cache entry, best effort.
    RemoveCache(u64),
    /// Write assembled audio bytes to the cache.
    WriteCache(u64, Vec<u8>),
    /// Fetch a manifest from a URL.
    FetchManifest(Vec<u8>),
    /// Fetch one payload (a media segment, or a whole progressive file).
    FetchSegment(Vec<u8>),
    /// Open an incrementally buffered stream, decode it, and start a sink.
    PlayProgressive(Vec<u8>),
    /// Run the external resolver on a track page URL.
    RunResolver(Vec<u8>),
    /// Decode an in-memory buffer and start a sink.
    DecodePlay(Vec<u8>),
    /// Pause the active sink.
    SinkPause,
    /// Resume the active sink.
    SinkResume,
    /// Stop and discard the active sink.
    SinkStop,
    /// Apply a volume (thousandths) to the active sink.
    SinkSetVolume(u32),
}

/// Whether an in-flight fetch pipeline plays its result or caches it.
#[derive(Clone, Copy, Debug, PartialEq, Eq, Structural)]
pub enum Purpose {
    Play,
    /// Preload for this track id.
    Preload(u64),
}

/// Context threaded through a fetch pipeline.
pub struct Request {
    pub purpose: Purpose,
    /// Track page URL, input to the resolver fallback.
    pub permalink_url: Option<Vec<u8>>,
}

/// Where a multi-step operation stands between outcomes.
pub enum Pending {
    /// No operation in flight.
    Idle,
    /// A play command waits for its cache lookup.
    AwaitCacheRead { track_id: u64, stream_url: Vec<u8>, permalink_url: Option<Vec<u8>> },
    /// A preload command waits for its cache probe.
    AwaitCacheProbe { track_id: u64, stream_url: Vec<u8>, permalink_url: Option<Vec<u8>> },
    /// A manifest fetch is in flight; `fallback` marks a resolver-sourced URL.
    AwaitManifest { url: Vec<u8>, req: Request, fallback: bool },
    /// The resolver runs; `drm_type` is kept for the give-up event.
    AwaitResolver { req: Request, drm_type: Vec<u8> },
    /// Segments are fetched one by one and appended to `assembled`.
    AwaitSegments { req: Request, queue: Vec<Vec<u8>>, next: usize, assembled: Vec<u8> },
    /// A progressive stream is being opened and decoded.
    AwaitProgressive,
    /// An in-memory buffer is being decoded; `remove_after` names a consumed
    /// cache entry to delete once the sink is up.
    AwaitDecode { remove_after: Option<u64> },
    /// Assembled bytes are being written to the cache.
    AwaitCacheWrite { track_id: u64 },
}

/// The engine state: one optional sink, a volume, and elapsed-time
/// accounting, plus the phase of any in-flight operation.
pub struct AudioPlayer {
    /// Whether a sink currently exists.
    pub sink_active: bool,
    /// Current volume in thousandths of full scale, at most 1000.
    pub volume: u32,
    /// Clock value when playback last started or resumed.
    pub playback_start: Option<u64>,
    /// Played time accumulated before the last pause, in milliseconds.
    pub accumulated_ms: u64,
    /// Whether the sink is paused.
    pub is_paused: bool,
    /// Whether a track is playing, for completion detection.
    pub was_playing: bool,
    /// Phase of the in-flight operation, if any.
    pub pending: Pending,
}

// ---------------------------------------------------------------------------
// Views.
// ---------------------------------------------------------------------------

#[verifier::ext_equal]
pub enum AudioEventView {
    Ready,
    Playing,
    Paused,
    Stopped,
    Finished,
    Buffering(bool),
    Error(Seq<u8>),
    DrmProtected { drm_type: Seq<u8>, track_url: Seq<u8> },
    Position(u64),
    PreloadComplete(u64),
}

#[verifier::ext_equal]
pub enum ActionView {
    ReadCache(u64),
    ProbeCache(u64),
    RemoveCache(u64),
    WriteCache(u64, Seq<u8>),
    FetchManifest(Seq<u8>),
    FetchSegment(Seq<u8>),
    PlayProgressive(Seq<u8>),
    RunResolver(Seq<u8>),
    DecodePlay(Seq<u8>),
    SinkPause,
    SinkResume,
    SinkStop,
    SinkSetVolume(u32),
}

#[verifier::ext_equal]
pub struct RequestView {
    pub purpose: Purpose,
    pub permalink_url: Option<Seq<u8>>,
}

#[verifier::ext_equal]
pub enum PendingView {
    Idle,
    AwaitCacheRead { track_id: u64, stream_url: Seq<u8>, permalink_url: Option<Seq<u8>> },
    AwaitCacheProbe { track_id: u64, stream_url: Seq<u8>, permalink_url: Option<Seq<u8>> },
    AwaitManifest { url: Seq<u8>, req: RequestView, fallback: bool },
    AwaitResolver { req: RequestView, drm_type: Seq<u8> },
    AwaitSegments { req: RequestView, queue: Seq<Seq<u8>>, next: usize, assembled: Seq<u8> },
    AwaitProgressive,
    AwaitDecode { remove_after: Option<u64> },
    AwaitCacheWrite { track_id: u64 },
}

#[verifier::ext_equal]
pub struct PlayerView {
    pub sink_active: bool,
    pub volume: u32,
    pub playback_start: Option<u64>,
    pub accumulated_ms: u64,
    pub is_paused: bool,
    pub was_playing: bool,
    pub pending: PendingView,
}

impl View for AudioEvent {
    type V = AudioEventView;

    open spec fn view(&self) -> AudioEventView {
        match self {
            AudioEvent::Ready => AudioEventView::Ready,
            AudioEvent::Playing => AudioEventView::Playing,
            AudioEvent::Paused => AudioEventView::Paused,
            AudioEvent::Stopped => AudioEventView::Stopped,
            AudioEvent::Finished => AudioEventView::Finished,
            AudioEvent::Buffering(b) => AudioEventView::Buffering(*b),
            AudioEvent::Error(m) => AudioEventView::Error(m@),
            AudioEvent::DrmProtected { drm_type, track_url } => AudioEventView::DrmProtected {
                drm_type: drm_type@,
                track_url: track_url@,
            },
            AudioEvent::Position(p) => AudioEventView::Position(*p),
            AudioEvent::PreloadComplete(id) => AudioEventView::PreloadComplete(*id),
        }
    }
}

impl DeepView for AudioEvent {
    type V = AudioEventView;

    open spec fn deep_view(&self) -> AudioEventView {
        self@
    }
}

impl View for Action {
    type V = ActionView;

    open spec fn view(&self) -> ActionView {
        match self {
            Action::ReadCache(id) => ActionView::ReadCache(*id),
            Action::ProbeCache(id) => ActionView::ProbeCache(*id),
            Action::RemoveCache(id) => ActionView::RemoveCache(*id),
            Action::WriteCache(id, data) => ActionView::WriteCache(*id, data@),
            Action::FetchManifest(u) => ActionView::FetchManifest(u@),
            Action::FetchSegment(u) => ActionView::FetchSegment(u@),
            Action::PlayProgressive(u) => ActionView::PlayProgressive(u@),
            Action::RunResolver(u) => ActionView::RunResolver(u@),
            Action::DecodePlay(d) => ActionView::DecodePlay(d@),
            Action::SinkPause => ActionView::SinkPause,
            Action::SinkResume => ActionView::SinkResume,
            Action::SinkStop => ActionView::SinkStop,
            Action::SinkSetVolume(v) => ActionView::SinkSetVolume(*v),
        }
    }
}

impl DeepView for Action {
    type V = ActionView;

    open spec fn deep_view(&self) -> ActionView {
        self@
    }
}

impl View for Request {
    type V = RequestView;

    open spec fn view(&self) -> RequestView {
        RequestView { purpose: self.purpose, permalink_url: self.permalink_url.deep_view() }
    }
}

impl View for Pending {
    type V = PendingView;

    open spec fn view(&self) -> PendingView {
        match self {
            Pending::Idle => PendingView::Idle,
            Pending::AwaitCacheRead { track_id, stream_url, permalink_url } => (
            PendingView::AwaitCacheRead {
                track_id: *track_id,
                stream_url: stream_url@,
                permalink_url: permalink_url.deep_view(),
            }),
            Pending::AwaitCacheProbe { track_id, stream_url, permalink_url } => (
            PendingView::AwaitCacheProbe {
                track_id: *track_id,
                stream_url: stream_url@,
                permalink_url: permalink_url.deep_view(),
            }),
            Pending::AwaitManifest { url, req, fallback } => PendingView::AwaitManifest {
                url: url@,
                req: req@,
                fallback: *fallback,
            },
            Pending::AwaitResolver { req, drm_type } => PendingView::AwaitResolver {
                req: req@,
                drm_type: drm_type@,
            },
            Pending::AwaitSegments { req, queue, next, assembled } => (
            PendingView::AwaitSegments {
                req: req@,
                queue: queue.deep_view(),
                next: *next,
                assembled: assembled@,
            }),
            Pending::AwaitProgressive => PendingView::AwaitProgressive,
            Pending::AwaitDecode { remove_after } => PendingView::AwaitDecode {
                remove_after: *remove_after,
            },
            Pending::AwaitCacheWrite { track_id } => PendingView::AwaitCacheWrite {
                track_id: *track_id,
            },
        }
    }
}

impl View for AudioPlayer {
    type V = PlayerView;

    open spec fn view(&self) -> PlayerView {
        PlayerView {
            sink_active: self.sink_active,
            volume: self.volume,
            playback_start: self.playback_start,
            accumulated_ms: self.accumulated_ms,
            is_paused: self.is_paused,
            was_playing: self.was_playing,
            pending: self.pending@,
        }
    }
}

// ---------------------------------------------------------------------------
// The transition relation, at the specification level.
// ---------------------------------------------------------------------------

impl PlayerView {
    /// Structural soundness of the engine state.
    pub open spec fn wf(self) -> bool {
        self.volume <= 1000 && match self.pending {
            PendingView::AwaitSegments { queue, next, .. } => next < queue.len(),
            _ => true,
        }
    }

    /// The clock value handed in never lies before the playback start mark,
    /// and elapsed time stays within the counter's range.
    pub open spec fn clock_ok(self, now_ms: u64) -> bool {
        match self.playback_start {
            Some(st) => st <= now_ms && self.accumulated_ms + (now_ms - st) <= u64::MAX,
            None => true,
        }
    }
}

/// The state a freshly spawned engine starts in.
pub open spec fn initial_state() -> PlayerView {
    PlayerView {
        sink_active: false,
        volume: 800,
        playback_start: None,
        accumulated_ms: 0,
        is_paused: false,
        was_playing: false,
        pending: PendingView::Idle,
    }
}

/// Elapsed playback time: the pre-pause accumulator, plus the time since
/// the start mark when one is set.
pub open spec fn elapsed_ms(s: PlayerView, now: u64) -> u64 {
    match s.playback_start {
        Some(st) => (s.accumulated_ms + (now - st)) as u64,
        None => s.accumulated_ms,
    }
}

/// Volume clamped to the engine's scale of 0..=1000 thousandths.
pub open spec fn clamp_milli(v: i64) -> u32 {
    if v < 0 {
        0u32
    } else if v > 1000 {
        1000u32
    } else {
        v as u32
    }
}

/// A URL that designates a segmented (manifest) stream.
pub open spec fn is_hls_url(url: Seq<u8>) -> bool {
    contains_seq(url, ".m3u8".spec_bytes())
}

/// Stop: when a sink exists it is discarded, time accounting is reset, and
/// one stop event is emitted; otherwise nothing at all happens.
pub open spec fn step_stop(s: PlayerView) -> (PlayerView, Seq<AudioEventView>, Seq<ActionView>) {
    if s.sink_active {
        (
            PlayerView {
                sink_active: false,
                playback_start: None,
                accumulated_ms: 0,
                is_paused: false,
                was_playing: false,
                ..s
            },
            seq![AudioEventView::Stopped],
            seq![ActionView::SinkStop],
        )
    } else {
        (s, seq![], seq![])
    }
}

/// Pause: with a sink, elapsed time is moved into the accumulator and the
/// start mark cleared; without one, nothing happens.
pub open spec fn step_pause(s: PlayerView, now: u64) -> (
    PlayerView,
    Seq<AudioEventView>,
    Seq<ActionView>,
) {
    if s.sink_active {
        let acc2 = match s.playback_start {
            Some(st) => (s.accumulated_ms + (now - st)) as u64,
            None => s.accumulated_ms,
        };
        (
            PlayerView { playback_start: None, accumulated_ms: acc2, is_paused: true, ..s },
            seq![AudioEventView::Paused],
            seq![ActionView::SinkPause],
        )
    } else {
        (s, seq![], seq![])
    }
}

/// Resume: with a sink, the start mark is reset to now (the accumulator is
/// kept); without one, nothing happens.
pub open spec fn step_resume(s: PlayerView, now: u64) -> (
    PlayerView,
    Seq<AudioEventView>,
    Seq<ActionView>,
) {
    if s.sink_active {
        (
            PlayerView { playback_start: Some(now), is_paused: false, ..s },
            seq![AudioEventView::Playing],
            seq![ActionView::SinkResume],
        )
    } else {
        (s, seq![], seq![])
    }
}

/// Set volume: the value is clamped to 0..=1000, stored, and applied to the
/// sink if one exists. No event is emitted.
pub open spec fn step_set_volume(s: PlayerView, v: i64) -> (
    PlayerView,
    Seq<AudioEventView>,
    Seq<ActionView>,
) {
    let cl = clamp_milli(v);
    (
        PlayerView { volume: cl, ..s },
        seq![],
        if s.sink_active {
            seq![ActionView::SinkSetVolume(cl)]
        } else {
            seq![]
        },
    )
}

/// Periodic tick: a drained sink ends the track with one finish event;
/// otherwise, while playing and not paused, the position is reported.
pub open spec fn step_tick(s: PlayerView, now: u64, sink_empty: bool) -> (
    PlayerView,
    Seq<AudioEventView>,
    Seq<ActionView>,
) {
    if s.was_playing && s.sink_active && sink_empty {
        (
            PlayerView { was_playing: false, playback_start: None, accumulated_ms: 0, ..s },
            seq![AudioEventView::Finished],
            seq![],
        )
    } else if s.was_playing && !s.is_paused && s.playback_start is Some {
        (s, seq![AudioEventView::Position(elapsed_ms(s, now))], seq![])
    } else {
        (s, seq![], seq![])
    }
}

// ---------------------------------------------------------------------------
// The executable transitions.
// ---------------------------------------------------------------------------

impl AudioPlayer {
    /// A fresh engine: no sink, volume at 800 thousandths, timers cleared.
    pub fn new() -> (r: AudioPlayer)
        ensures
            r@ == initial_state(),
            r@.wf(),
    {
        let r = AudioPlayer {
            sink_active: false,
            volume: 800,
            playback_start: None,
            accumulated_ms: 0,
            is_paused: false,
            was_playing: false,
            pending: Pending::Idle,
        };
        proof {
            assert(r@ =~= initial_state());
        }
        r
    }

    /// Stop playback. See [`step_stop`].
    pub fn stop(&mut self) -> (r: (Vec<AudioEvent>, Vec<Action>))
        requires
            old(self)@.wf(),
            old(self)@.pending is Idle,
        ensures
            final(self)@.wf(),
            final(self)@.pending is Idle,
            final(self)@ == step_stop(old(self)@).0,
            r.0.deep_view() == step_stop(old(self)@).1,
            r.1.deep_view() == step_stop(old(self)@).2,
    {
        let mut evs: Vec<AudioEvent> = Vec::new();
        let mut acts: Vec<Action> = Vec::new();
        if self.sink_active {
            self.sink_active = false;
            self.playback_start = None;
            self.accumulated_ms = 0;
            self.is_paused = false;
            self.was_playing = false;
            evs.push(AudioEvent::Stopped);
            acts.push(Action::SinkStop);
            proof {
                assert(self@ =~= step_stop(old(self)@).0);
                assert(evs.deep_view() =~= step_stop(old(self)@).1);
                assert(acts.deep_view() =~= step_stop(old(self)@).2);
            }
        } else {
            proof {
                assert(self@ =~= step_stop(old(self)@).0);
                assert(evs.deep_view() =~= step_stop(old(self)@).1);
                assert(acts.deep_view() =~= step_stop(old(self)@).2);
            }
        }
        (evs, acts)
    }

    /// Pause playback. See [`step_pause`].
    pub fn pause(&mut self, now_ms: u64) -> (r: (Vec<AudioEvent>, Vec<Action>))
        requires
            old(self)@.wf(),
            old(self)@.pending is Idle,
            old(self)@.clock_ok(now_ms),
        ensures
            final(self)@.wf(),
            final(self)@.pending is Idle,
            final(self)@ == step_pause(old(self)@, now_ms).0,
            r.0.deep_view() == step_pause(old(self)@, now_ms).1,
            r.1.deep_view() == step_pause(old(self)@, now_ms).2,
    {
        let mut evs: Vec<AudioEvent> = Vec::new();
        let mut acts: Vec<Action> = Vec::new();
        if self.sink_active {
            match self.playback_start {
                Some(st) => {
                    self.accumulated_ms = self.accumulated_ms + (now_ms - st);
                },
                None => {},
            }
            self.playback_start = None;
            self.is_paused = true;
            evs.push(AudioEvent::Paused);
            acts.push(Action::SinkPause);
            proof {
                assert(self@ =~= step_pause(old(self)@, now_ms).0);
                assert(evs.deep_view() =~= step_pause(old(self)@, now_ms).1);
                assert(acts.deep_view() =~= step_pause(old(self)@, now_ms).2);
            }
        } else {
            proof {
                assert(self@ =~= step_pause(old(self)@, now_ms).0);
                assert(evs.deep_view() =~= step_pause(old(self)@, now_ms).1);
                assert(acts.deep_view() =~= step_pause(old(self)@, now_ms).2);
            }
        }
        (evs, acts)
    }

    /// Resume playback. See [`step_resume`].
    pub fn resume(&mut self, now_ms: u64) -> (r: (Vec<AudioEvent>, Vec<Action>))
        requires
            old(self)@.wf(),
            old(self)@.pending is Idle,
        ensures
            final(self)@.wf(),
            final(self)@.pending is Idle,
            final(self)@ == step_resume(old(self)@, now_ms).0,
            r.0.deep_view() == step_resume(old(self)@, now_ms).1,
            r.1.deep_view() == step_resume(old(self)@, now_ms).2,
    {
        let mut evs: Vec<AudioEvent> = Vec::new();
        let mut acts: Vec<Action> = Vec::new();
        if self.sink_active {
            self.playback_start = Some(now_ms);
            self.is_paused = false;
            evs.push(AudioEvent::Playing);
            acts.push(Action::SinkResume);
            proof {
                assert(self@ =~= step_resume(old(self)@, now_ms).0);
                assert(evs.deep_view() =~= step_resume(old(self)@, now_ms).1);
                assert(acts.deep_view() =~= step_resume(old(self)@, now_ms).2);
            }
        } else {
            proof {
                assert(self@ =~= step_resume(old(self)@, now_ms).0);
                assert(evs.deep_view() =~= step_resume(old(self)@, now_ms).1);
                assert(acts.deep_view() =~= step_resume(old(self)@, now_ms).2);
            }
        }
        (evs, acts)
    }

    /// Set the volume. See [`step_set_volume`].
    pub fn set_volume(&mut self, v: i64) -> (r: (Vec<AudioEvent>, Vec<Action>))
        requires
            old(self)@.wf(),
        ensures
            final(self)@.wf(),
            final(self)@.pending == old(self)@.pending,
            final(self)@ == step_set_volume(old(self)@, v).0,
            r.0.deep_view() == step_set_volume(old(self)@, v).1,
            r.1.deep_view() == step_set_volume(old(self)@, v).2,
    {
        let mut evs: Vec<AudioEvent> = Vec::new();
        let mut acts: Vec<Action> = Vec::new();
        let cl: u32 = if v < 0 {
            0
        } else if v > 1000 {
            1000
        } else {
            v as u32
        };
        self.volume = cl;
        if self.sink_active {
            acts.push(Action::SinkSetVolume(cl));
        }
        proof {
            assert(self@ =~= step_set_volume(old(self)@, v).0);
            assert(evs.deep_view() =~= step_set_volume(old(self)@, v).1);
            assert(acts.deep_view() =~= step_set_volume(old(self)@, v).2);
        }
        (evs, acts)
    }

    /// Periodic completion and position check. See [`step_tick`].
    pub fn tick(&mut self, now_ms: u64, sink_empty: bool) -> (r: (Vec<AudioEvent>, Vec<Action>))
        requires
            old(self)@.wf(),
            old(self)@.pending is Idle,
            old(self)@.clock_ok(now_ms),
        ensures
            final(self)@.wf(),
            final(self)@.pending is Idle,
            final(self)@ == step_tick(old(self)@, now_ms, sink_empty).0,
            r.0.deep_view() == step_tick(old(self)@, now_ms, sink_empty).1,
            r.1.deep_view() == step_tick(old(self)@, now_ms, sink_empty).2,
    {
        let mut evs: Vec<AudioEvent> = Vec::new();
        let acts: Vec<Action> = Vec::new();
        if self.was_playing && self.sink_active && sink_empty {
            self.was_playing = false;
            self.playback_start = None;
            self.accumulated_ms = 0;
            evs.push(AudioEvent::Finished);
            proof {
                assert(self@ =~= step_tick(old(self)@, now_ms, sink_empty).0);
                assert(evs.deep_view() =~= step_tick(old(self)@, now_ms, sink_empty).1);
                assert(acts.deep_view() =~= step_tick(old(self)@, now_ms, sink_empty).2);
            }
        } else if self.was_playing && !self.is_paused {
            match self.playback_start {
                Some(st) => {
                    evs.push(AudioEvent::Position(self.accumulated_ms + (now_ms - st)));
                },
                None => {},
            }
            proof {
                assert(self@ =~= step_tick(old(self)@, now_ms, sink_empty).0);
                assert(evs.deep_view() =~= step_tick(old(self)@, now_ms, sink_empty).1);
                assert(acts.deep_view() =~= step_tick(old(self)@, now_ms, sink_empty).2);
            }
        } else {
            proof {
                assert(self@ =~= step_tick(old(self)@, now_ms, sink_empty).0);
                assert(evs.deep_view() =~= step_tick(old(self)@, now_ms, sink_empty).1);
                assert(acts.deep_view() =~= step_tick(old(self)@, now_ms, sink_empty).2);
            }
        }
        (evs, acts)
    }
}

// ---------------------------------------------------------------------------
// Laws about the transitions.
// ---------------------------------------------------------------------------

/// Stop is a no-op without a sink: no event, no action, no state change.
pub proof fn lemma_stop_without_sink_is_noop(s: PlayerView)
    requires
        !s.sink_active,
    ensures
        step_stop(s).0 == s,
        step_stop(s).1 == Seq::<AudioEventView>::empty(),
        step_stop(s).2 == Seq::<ActionView>::empty(),
{
    assert(step_stop(s).1 =~= Seq::<AudioEventView>::empty());
    assert(step_stop(s).2 =~= Seq::<ActionView>::empty());
}

/// Two stops in a row emit exactly one stop event, whatever the state was:
/// the second stop finds no sink and does nothing.
pub proof fn lemma_stop_twice_one_stopped(s: PlayerView)
    ensures
        ({
            let (s1, e1, _) = step_stop(s);
            let (s2, e2, _) = step_stop(s1);
            e1 + e2 == if s.sink_active {
                seq![AudioEventView::Stopped]
            } else {
                Seq::<AudioEventView>::empty()
            } && s2 == s1
        }),
{
    let (s1, e1, _) = step_stop(s);
    let (s2, e2, _) = step_stop(s1);
    if s.sink_active {
        assert(e1 + e2 =~= seq![AudioEventView::Stopped]);
    } else {
        assert(e1 + e2 =~= Seq::<AudioEventView>::empty());
    }
}

/// Pause and resume account elapsed time correctly: pausing at `t1` banks
/// the time played so far; resuming at `t2` and sampling at `t3` reports
/// exactly that bank plus `t3 - t2`. Time spent paused never counts.
pub proof fn lemma_pause_resume_accounting(s: PlayerView, t1: u64, t2: u64, t3: u64)
    requires
        s.sink_active,
        s.playback_start matches Some(st) && st <= t1,
        s.accumulated_ms + (t1 - s.playback_start->0) <= u64::MAX,
        t1 <= t2 <= t3,
        s.accumulated_ms + (t1 - s.playback_start->0) + (t3 - t2) <= u64::MAX,
        s.was_playing,
    ensures
        ({
            let banked = (s.accumulated_ms + (t1 - s.playback_start->0)) as u64;
            let p = step_pause(s, t1);
            let r = step_resume(p.0, t2);
            let t = step_tick(r.0, t3, false);
            &&& p.0.accumulated_ms == banked
            &&& t.1 == seq![AudioEventView::Position((banked + (t3 - t2)) as u64)]
        }),
{
}


// ---------------------------------------------------------------------------
// The fetch pipeline: play and preload commands, and their outcomes.
// ---------------------------------------------------------------------------

/// The state with no operation in flight.
pub open spec fn idle(s: PlayerView) -> PlayerView {
    PlayerView { pending: PendingView::Idle, ..s }
}

/// The state right after a sink came up: playing from now, timers reset.
pub open spec fn playing_state(s: PlayerView, now: u64) -> PlayerView {
    PlayerView {
        sink_active: true,
        playback_start: Some(now),
        accumulated_ms: 0,
        is_paused: false,
        was_playing: true,
        pending: PendingView::Idle,
        ..s
    }
}

/// How a failed pipeline reports: a play surfaces its events and clears the
/// buffering flag; a preload is silent.
pub open spec fn fail_events(purpose: Purpose, evs: Seq<AudioEventView>) -> Seq<AudioEventView> {
    match purpose {
        Purpose::Play => evs + seq![AudioEventView::Buffering(false)],
        Purpose::Preload(_) => seq![],
    }
}

/// The display text for a manifest error.
pub open spec fn manifest_error_message(e: ManifestError) -> Seq<u8> {
    match e {
        ManifestError::NotAPlaylist => "stream manifest expected".spec_bytes(),
        ManifestError::MasterPlaylist => "master playlists are not supported".spec_bytes(),
        ManifestError::Malformed => "malformed stream manifest".spec_bytes(),
    }
}

/// The DRM label reported on give-up: the key format, or a generic label.
pub open spec fn drm_type_of(e: crate::hls::HlsEncryptionView) -> Seq<u8> {
    match e.keyformat {
        Some(k) => k,
        None => "encrypted".spec_bytes(),
    }
}

pub open spec fn permalink_or_empty(req: RequestView) -> Seq<u8> {
    match req.permalink_url {
        Some(p) => p,
        None => Seq::<u8>::empty(),
    }
}

pub open spec fn permalink_nonempty(req: RequestView) -> bool {
    req.permalink_url matches Some(p) && p.len() > 0
}

/// Give up on a protected stream: a play reports it once; a preload is
/// silent. No further action is taken either way.
pub open spec fn drm_give_up(s: PlayerView, req: RequestView, dt: Seq<u8>) -> (
    PlayerView,
    Seq<AudioEventView>,
    Seq<ActionView>,
) {
    match req.purpose {
        Purpose::Play => (
            idle(s),
            seq![
                AudioEventView::DrmProtected { drm_type: dt, track_url: permalink_or_empty(req) },
                AudioEventView::Buffering(false),
            ],
            seq![],
        ),
        Purpose::Preload(_) => (idle(s), seq![], seq![]),
    }
}

/// Start fetching from a URL: a manifest URL goes through the manifest
/// pipeline; a progressive URL is streamed directly for play, or fetched
/// whole for preload.
pub open spec fn start_stream(
    s: PlayerView,
    url: Seq<u8>,
    permalink: Option<Seq<u8>>,
    purpose: Purpose,
) -> (PlayerView, Seq<ActionView>) {
    if is_hls_url(url) {
        (
            PlayerView {
                pending: PendingView::AwaitManifest {
                    url,
                    req: RequestView { purpose, permalink_url: permalink },
                    fallback: false,
                },
                ..s
            },
            seq![ActionView::FetchManifest(url)],
        )
    } else {
        match purpose {
            Purpose::Play => (
                PlayerView { pending: PendingView::AwaitProgressive, ..s },
                seq![ActionView::PlayProgressive(url)],
            ),
            Purpose::Preload(_) => (
                PlayerView {
                    pending: PendingView::AwaitSegments {
                        req: RequestView { purpose, permalink_url: permalink },
                        queue: seq![url],
                        next: 0,
                        assembled: seq![],
                    },
                    ..s
                },
                seq![ActionView::FetchSegment(url)],
            ),
        }
    }
}

/// Play: any existing sink is stopped first. With a track id the cache is
/// consulted; otherwise buffering is announced and the fetch starts.
pub open spec fn step_play(
    s: PlayerView,
    track_id: Option<u64>,
    url: Seq<u8>,
    permalink: Option<Seq<u8>>,
) -> (PlayerView, Seq<AudioEventView>, Seq<ActionView>) {
    let (s1, evs1, acts1) = step_stop(s);
    match track_id {
        Some(id) => (
            PlayerView {
                pending: PendingView::AwaitCacheRead {
                    track_id: id,
                    stream_url: url,
                    permalink_url: permalink,
                },
                ..s1
            },
            evs1,
            acts1 + seq![ActionView::ReadCache(id)],
        ),
        None => {
            let (s2, acts2) = start_stream(s1, url, permalink, Purpose::Play);
            (s2, evs1 + seq![AudioEventView::Buffering(true)], acts1 + acts2)
        },
    }
}

/// Preload: ask whether the track is already cached; playback is untouched.
pub open spec fn step_preload(s: PlayerView, id: u64, url: Seq<u8>, permalink: Option<Seq<u8>>) -> (
    PlayerView,
    Seq<AudioEventView>,
    Seq<ActionView>,
) {
    (
        PlayerView {
            pending: PendingView::AwaitCacheProbe {
                track_id: id,
                stream_url: url,
                permalink_url: permalink,
            },
            ..s
        },
        seq![],
        seq![ActionView::ProbeCache(id)],
    )
}

/// Cache read answered: a hit is decoded straight from memory (the entry is
/// deleted after the sink is up); a miss falls back to the network.
pub open spec fn step_on_cache_read(s: PlayerView, data: Option<Seq<u8>>) -> (
    PlayerView,
    Seq<AudioEventView>,
    Seq<ActionView>,
) {
    match s.pending {
        PendingView::AwaitCacheRead { track_id, stream_url, permalink_url } => match data {
            Some(d) => (
                PlayerView {
                    pending: PendingView::AwaitDecode { remove_after: Some(track_id) },
                    ..s
                },
                seq![AudioEventView::Buffering(true)],
                seq![ActionView::DecodePlay(d)],
            ),
            None => {
                let (s2, acts) = start_stream(idle(s), stream_url, permalink_url, Purpose::Play);
                (s2, seq![AudioEventView::Buffering(true)], acts)
            },
        },
        _ => (s, seq![], seq![]),
    }
}

/// Cache probe answered: a cached track completes the preload at once; an
/// uncached one starts the fetch pipeline, silently.
pub open spec fn step_on_cache_probe(s: PlayerView, cached: bool) -> (
    PlayerView,
    Seq<AudioEventView>,
    Seq<ActionView>,
) {
    match s.pending {
        PendingView::AwaitCacheProbe { track_id, stream_url, permalink_url } => if cached {
            (idle(s), seq![AudioEventView::PreloadComplete(track_id)], seq![])
        } else {
            let (s2, acts) = start_stream(
                idle(s),
                stream_url,
                permalink_url,
                Purpose::Preload(track_id),
            );
            (s2, seq![], acts)
        },
        _ => (s, seq![], seq![]),
    }
}

/// The ordered download queue of a parsed manifest: the initialization
/// segment first when present, then every media segment in manifest order.
pub open spec fn queue_of(init: Option<Seq<u8>>, segs: Seq<crate::hls::HlsSegmentView>) -> Seq<
    Seq<u8>,
> {
    (match init {
        Some(u) => seq![u],
        None => Seq::<Seq<u8>>::empty(),
    }) + segs.map_values(|sg: crate::hls::HlsSegmentView| sg.uri)
}

/// Begin downloading a manifest's segments: an empty segment list fails the
/// pipeline; otherwise the first queued URL is requested.
pub open spec fn begin_segments_spec(
    s: PlayerView,
    req: RequestView,
    segs: Seq<crate::hls::HlsSegmentView>,
    init: Option<Seq<u8>>,
) -> (PlayerView, Seq<AudioEventView>, Seq<ActionView>) {
    if segs.len() == 0 {
        (
            idle(s),
            fail_events(
                req.purpose,
                seq![AudioEventView::Error("no segments in stream manifest".spec_bytes())],
            ),
            seq![],
        )
    } else {
        let queue = queue_of(init, segs);
        (
            PlayerView {
                pending: PendingView::AwaitSegments { req, queue, next: 0, assembled: seq![] },
                ..s
            },
            seq![],
            seq![ActionView::FetchSegment(queue[0])],
        )
    }
}

/// What a fetched manifest leads to: a parse failure or an empty segment
/// list fails the pipeline; commercial DRM triggers the one-shot resolver
/// fallback (or gives up); anything else starts the segment downloads.
pub open spec fn handle_manifest(
    s: PlayerView,
    req: RequestView,
    fallback: bool,
    m: HlsStreamView,
) -> (PlayerView, Seq<AudioEventView>, Seq<ActionView>) {
    if m.encryption matches Some(enc) && spec_is_commercial_drm(enc) {
        let dt = drm_type_of(m.encryption->0);
        if !fallback && permalink_nonempty(req) {
            (
                PlayerView { pending: PendingView::AwaitResolver { req, drm_type: dt }, ..s },
                seq![],
                seq![ActionView::RunResolver(permalink_or_empty(req))],
            )
        } else {
            drm_give_up(s, req, dt)
        }
    } else {
        begin_segments_spec(s, req, m.segments, m.init_segment_url)
    }
}

/// Manifest fetch answered: transport errors and parse errors fail the
/// pipeline; a parsed manifest is handled by [`handle_manifest`].
pub open spec fn step_on_manifest(s: PlayerView, res: Result<Seq<u8>, Seq<u8>>) -> (
    PlayerView,
    Seq<AudioEventView>,
    Seq<ActionView>,
) {
    match s.pending {
        PendingView::AwaitManifest { url, req, fallback } => match res {
            Err(m) => (idle(s), fail_events(req.purpose, seq![AudioEventView::Error(m)]), seq![]),
            Ok(bytes) => match spec_parse_manifest(bytes, url) {
                Err(e) => (
                    idle(s),
                    fail_events(req.purpose, seq![AudioEventView::Error(manifest_error_message(e))]),
                    seq![],
                ),
                Ok(m) => handle_manifest(s, req, fallback, m),
            },
        },
        _ => (s, seq![], seq![]),
    }
}

/// Resolver answered: a resolved URL is fetched as a manifest marked as
/// fallback, so a second resolver run can never be requested; a resolver
/// failure gives up with the original DRM label.
pub open spec fn step_on_resolver(s: PlayerView, res: Option<Seq<u8>>) -> (
    PlayerView,
    Seq<AudioEventView>,
    Seq<ActionView>,
) {
    match s.pending {
        PendingView::AwaitResolver { req, drm_type } => match res {
            Some(url) => (
                PlayerView { pending: PendingView::AwaitManifest { url, req, fallback: true }, ..s },
                seq![],
                seq![ActionView::FetchManifest(url)],
            ),
            None => drm_give_up(s, req, drm_type),
        },
        _ => (s, seq![], seq![]),
    }
}

/// Segment fetch answered: the chunk is appended in order; the next segment
/// is requested, or the finished buffer goes to the decoder (play) or the
/// cache (preload). An empty preload result is dropped silently.
pub open spec fn step_on_segment(s: PlayerView, res: Result<Seq<u8>, Seq<u8>>) -> (
    PlayerView,
    Seq<AudioEventView>,
    Seq<ActionView>,
) {
    match s.pending {
        PendingView::AwaitSegments { req, queue, next, assembled } => {
            if next < queue.len() {
                match res {
                    Err(m) => (idle(s), fail_events(req.purpose, seq![AudioEventView::Error(m)]), seq![]),
                    Ok(d) => {
                        let asm2 = assembled + d;
                        if next + 1 < queue.len() {
                            (
                                PlayerView {
                                    pending: PendingView::AwaitSegments {
                                        req,
                                        queue,
                                        next: (next + 1) as usize,
                                        assembled: asm2,
                                    },
                                    ..s
                                },
                                seq![],
                                seq![ActionView::FetchSegment(queue[next + 1])],
                            )
                        } else {
                            match req.purpose {
                                Purpose::Play => (
                                    PlayerView {
                                        pending: PendingView::AwaitDecode { remove_after: None },
                                        ..s
                                    },
                                    seq![],
                                    seq![ActionView::DecodePlay(asm2)],
                                ),
                                Purpose::Preload(id) => if asm2.len() > 0 {
                                    (
                                        PlayerView {
                                            pending: PendingView::AwaitCacheWrite {
                                                track_id: id,
                                            },
                                            ..s
                                        },
                                        seq![],
                                        seq![ActionView::WriteCache(id, asm2)],
                                    )
                                } else {
                                    (idle(s), seq![], seq![])
                                },
                            }
                        }
                    },
                }
            } else {
                (s, seq![], seq![])
            }
        },
        _ => (s, seq![], seq![]),
    }
}

/// Progressive open answered: success means the sink is up and playing;
/// failure surfaces the error and clears the buffering flag.
pub open spec fn step_on_progressive(s: PlayerView, err: Option<Seq<u8>>, now: u64) -> (
    PlayerView,
    Seq<AudioEventView>,
    Seq<ActionView>,
) {
    match s.pending {
        PendingView::AwaitProgressive => match err {
            None => (
                playing_state(s, now),
                seq![AudioEventView::Buffering(false), AudioEventView::Playing],
                seq![],
            ),
            Some(m) => (
                idle(s),
                seq![AudioEventView::Error(m), AudioEventView::Buffering(false)],
                seq![],
            ),
        },
        _ => (s, seq![], seq![]),
    }
}

/// Decode answered: success announces playback, failure the error; either
/// way a consumed cache entry is removed afterwards.
pub open spec fn step_on_decode(s: PlayerView, err: Option<Seq<u8>>, now: u64) -> (
    PlayerView,
    Seq<AudioEventView>,
    Seq<ActionView>,
) {
    match s.pending {
        PendingView::AwaitDecode { remove_after } => {
            let racts = match remove_after {
                Some(id) => seq![ActionView::RemoveCache(id)],
                None => Seq::<ActionView>::empty(),
            };
            match err {
                None => (
                    playing_state(s, now),
                    seq![AudioEventView::Buffering(false), AudioEventView::Playing],
                    racts,
                ),
                Some(m) => (
                    idle(s),
                    seq![AudioEventView::Error(m), AudioEventView::Buffering(false)],
                    racts,
                ),
            }
        },
        _ => (s, seq![], seq![]),
    }
}

/// Cache write answered: a successful preload is announced; a failed one is
/// silent, as if the cache were absent.
pub open spec fn step_on_cache_written(s: PlayerView, ok: bool) -> (
    PlayerView,
    Seq<AudioEventView>,
    Seq<ActionView>,
) {
    match s.pending {
        PendingView::AwaitCacheWrite { track_id } => (
            idle(s),
            if ok {
                seq![AudioEventView::PreloadComplete(track_id)]
            } else {
                Seq::<AudioEventView>::empty()
            },
            seq![],
        ),
        _ => (s, seq![], seq![]),
    }
}


/// The view of a byte-carrying result.
pub open spec fn res_bytes_view(res: Result<Vec<u8>, Vec<u8>>) -> Result<Seq<u8>, Seq<u8>> {
    match res {
        Ok(b) => Ok(b@),
        Err(m) => Err(m@),
    }
}

impl AudioPlayer {
    /// Take the in-flight phase out of the state, leaving it idle.
    fn take_pending(&mut self) -> (p: Pending)
        ensures
            p@ == old(self)@.pending,
            final(self)@ == (PlayerView { pending: PendingView::Idle, ..old(self)@ }),
    {
        let mut p = Pending::Idle;
        core::mem::swap(&mut self.pending, &mut p);
        proof {
            assert(self@ =~= (PlayerView { pending: PendingView::Idle, ..old(self)@ }));
        }
        p
    }

    /// Start fetching from a URL. See [`start_stream`].
    fn start_stream_exec(
        &mut self,
        url: Vec<u8>,
        permalink: Option<Vec<u8>>,
        purpose: Purpose,
        acts: &mut Vec<Action>,
    )
        requires
            old(self)@.wf(),
        ensures
            final(self)@.wf(),
            final(self)@ == start_stream(old(self)@, url@, permalink.deep_view(), purpose).0,
            final(acts).deep_view() == old(acts).deep_view() + start_stream(
                old(self)@,
                url@,
                permalink.deep_view(),
                purpose,
            ).1,
    {
        let ghost sp = start_stream(old(self)@, url@, permalink.deep_view(), purpose);
        if contains_sub(url.as_slice(), ".m3u8".as_bytes()) {
            let uc = copy_bytes(&url);
            self.pending = Pending::AwaitManifest {
                url,
                req: Request { purpose, permalink_url: permalink },
                fallback: false,
            };
            acts.push(Action::FetchManifest(uc));
            proof {
                assert(self@ =~~= sp.0);
                assert(acts.deep_view() =~= old(acts).deep_view() + sp.1);
            }
        } else {
            match purpose {
                Purpose::Play => {
                    self.pending = Pending::AwaitProgressive;
                    acts.push(Action::PlayProgressive(url));
                    proof {
                        assert(self@ =~~= sp.0);
                        assert(acts.deep_view() =~= old(acts).deep_view() + sp.1);
                    }
                },
                Purpose::Preload(_) => {
                    let uc = copy_bytes(&url);
                    let mut queue: Vec<Vec<u8>> = Vec::new();
                    queue.push(url);
                    self.pending = Pending::AwaitSegments {
                        req: Request { purpose, permalink_url: permalink },
                        queue,
                        next: 0,
                        assembled: Vec::new(),
                    };
                    acts.push(Action::FetchSegment(uc));
                    proof {
                        assert(self@ =~~= sp.0);
                        assert(acts.deep_view() =~= old(acts).deep_view() + sp.1);
                    }
                },
            }
        }
    }

    /// Play a stream. See [`step_play`].
    pub fn play(
        &mut self,
        track_id: Option<u64>,
        stream_url: Vec<u8>,
        permalink_url: Option<Vec<u8>>,
    ) -> (r: (Vec<AudioEvent>, Vec<Action>))
        requires
            old(self)@.wf(),
            old(self)@.pending is Idle,
        ensures
            final(self)@.wf(),
            final(self)@ == step_play(
                old(self)@,
                track_id,
                stream_url@,
                permalink_url.deep_view(),
            ).0,
            r.0.deep_view() == step_play(
                old(self)@,
                track_id,
                stream_url@,
                permalink_url.deep_view(),
            ).1,
            r.1.deep_view() == step_play(
                old(self)@,
                track_id,
                stream_url@,
                permalink_url.deep_view(),
            ).2,
    {
        let ghost sp = step_play(old(self)@, track_id, stream_url@, permalink_url.deep_view());
        let (mut evs, mut acts) = self.stop();
        match track_id {
            Some(id) => {
                self.pending = Pending::AwaitCacheRead {
                    track_id: id,
                    stream_url,
                    permalink_url,
                };
                acts.push(Action::ReadCache(id));
                proof {
                    assert(self@ =~~= sp.0);
                    assert(evs.deep_view() =~= sp.1);
                    assert(acts.deep_view() =~= sp.2);
                }
            },
            None => {
                evs.push(AudioEvent::Buffering(true));
                self.start_stream_exec(stream_url, permalink_url, Purpose::Play, &mut acts);
                proof {
                    assert(self@ =~~= sp.0);
                    assert(evs.deep_view() =~= sp.1);
                    assert(acts.deep_view() =~= sp.2);
                }
            },
        }
        (evs, acts)
    }

    /// Preload a track into the cache. See [`step_preload`].
    pub fn preload(
        &mut self,
        track_id: u64,
        stream_url: Vec<u8>,
        permalink_url: Option<Vec<u8>>,
    ) -> (r: (Vec<AudioEvent>, Vec<Action>))
        requires
            old(self)@.wf(),
            old(self)@.pending is Idle,
        ensures
            final(self)@.wf(),
            final(self)@ == step_preload(
                old(self)@,
                track_id,
                stream_url@,
                permalink_url.deep_view(),
            ).0,
            r.0.deep_view() == step_preload(
                old(self)@,
                track_id,
                stream_url@,
                permalink_url.deep_view(),
            ).1,
            r.1.deep_view() == step_preload(
                old(self)@,
                track_id,
                stream_url@,
                permalink_url.deep_view(),
            ).2,
    {
        let ghost sp = step_preload(old(self)@, track_id, stream_url@, permalink_url.deep_view());
        let evs: Vec<AudioEvent> = Vec::new();
        let mut acts: Vec<Action> = Vec::new();
        self.pending = Pending::AwaitCacheProbe { track_id, stream_url, permalink_url };
        acts.push(Action::ProbeCache(track_id));
        proof {
            assert(self@ =~~= sp.0);
            assert(evs.deep_view() =~= sp.1);
            assert(acts.deep_view() =~= sp.2);
        }
        (evs, acts)
    }

    /// Apply a cache-read result. See [`step_on_cache_read`].
    pub fn on_cache_read(&mut self, data: Option<Vec<u8>>) -> (r: (Vec<AudioEvent>, Vec<Action>))
        requires
            old(self)@.wf(),
            old(self)@.pending is AwaitCacheRead,
        ensures
            final(self)@.wf(),
            final(self)@ == step_on_cache_read(old(self)@, data.deep_view()).0,
            r.0.deep_view() == step_on_cache_read(old(self)@, data.deep_view()).1,
            r.1.deep_view() == step_on_cache_read(old(self)@, data.deep_view()).2,
    {
        let ghost sp = step_on_cache_read(old(self)@, data.deep_view());
        let mut evs: Vec<AudioEvent> = Vec::new();
        let mut acts: Vec<Action> = Vec::new();
        let p = self.take_pending();
        match p {
            Pending::AwaitCacheRead { track_id, stream_url, permalink_url } => {
                evs.push(AudioEvent::Buffering(true));
                match data {
                    Some(d) => {
                        proof {
                            assert(d.deep_view() =~= d@);
                        }
                        self.pending = Pending::AwaitDecode { remove_after: Some(track_id) };
                        acts.push(Action::DecodePlay(d));
                        proof {
                            assert(self@ =~~= sp.0);
                            assert(evs.deep_view() =~= sp.1);
                            assert(acts.deep_view() =~= sp.2);
                        }
                    },
                    None => {
                        self.start_stream_exec(stream_url, permalink_url, Purpose::Play, &mut acts);
                        proof {
                            assert(self@ =~~= sp.0);
                            assert(evs.deep_view() =~= sp.1);
                            assert(acts.deep_view() =~= sp.2);
                        }
                    },
                }
            },
            _ => {
                proof {
                    assert(false);
                }
            },
        }
        (evs, acts)
    }

    /// Apply a cache-probe result. See [`step_on_cache_probe`].
    pub fn on_cache_probe(&mut self, cached: bool) -> (r: (Vec<AudioEvent>, Vec<Action>))
        requires
            old(self)@.wf(),
            old(self)@.pending is AwaitCacheProbe,
        ensures
            final(self)@.wf(),
            final(self)@ == step_on_cache_probe(old(self)@, cached).0,
            r.0.deep_view() == step_on_cache_probe(old(self)@, cached).1,
            r.1.deep_view() == step_on_cache_probe(old(self)@, cached).2,
    {
        let ghost sp = step_on_cache_probe(old(self)@, cached);
        let mut evs: Vec<AudioEvent> = Vec::new();
        let mut acts: Vec<Action> = Vec::new();
        let p = self.take_pending();
        match p {
            Pending::AwaitCacheProbe { track_id, stream_url, permalink_url } => {
                if cached {
                    evs.push(AudioEvent::PreloadComplete(track_id));
                    proof {
                        assert(self@ =~~= sp.0);
                        assert(evs.deep_view() =~= sp.1);
                        assert(acts.deep_view() =~= sp.2);
                    }
                } else {
                    self.start_stream_exec(
                        stream_url,
                        permalink_url,
                        Purpose::Preload(track_id),
                        &mut acts,
                    );
                    proof {
                        assert(self@ =~~= sp.0);
                        assert(evs.deep_view() =~= sp.1);
                        assert(acts.deep_view() =~= sp.2);
                    }
                }
            },
            _ => {
                proof {
                    assert(false);
                }
            },
        }
        (evs, acts)
    }
}


/// Append failure events for one purpose: a play reports the error and ends
/// buffering; a preload stays silent.
fn push_fail(evs: &mut Vec<AudioEvent>, purpose: Purpose, msg: Vec<u8>)
    ensures
        final(evs).deep_view() == old(evs).deep_view() + fail_events(
            purpose,
            seq![AudioEventView::Error(msg@)],
        ),
{
    let ghost tail = fail_events(purpose, seq![AudioEventView::Error(msg@)]);
    match purpose {
        Purpose::Play => {
            evs.push(AudioEvent::Error(msg));
            evs.push(AudioEvent::Buffering(false));
            proof {
                assert(evs.deep_view() =~= old(evs).deep_view() + tail);
            }
        },
        Purpose::Preload(_) => {
            proof {
                assert(evs.deep_view() =~= old(evs).deep_view() + tail);
            }
        },
    }
}

/// The display text for a manifest error.
fn manifest_error_message_exec(e: ManifestError) -> (r: Vec<u8>)
    ensures
        r@ == manifest_error_message(e),
{
    match e {
        ManifestError::NotAPlaylist => "stream manifest expected".as_bytes_vec(),
        ManifestError::MasterPlaylist => "master playlists are not supported".as_bytes_vec(),
        ManifestError::Malformed => "malformed stream manifest".as_bytes_vec(),
    }
}

impl AudioPlayer {
    /// Queue a manifest's segments and request the first one. See
    /// [`begin_segments_spec`].
    fn begin_segments(
        &mut self,
        purpose: Purpose,
        permalink_url: Option<Vec<u8>>,
        segments: Vec<crate::hls::HlsSegment>,
        init_segment_url: Option<Vec<u8>>,
        evs: &mut Vec<AudioEvent>,
        acts: &mut Vec<Action>,
    )
        requires
            old(self)@.wf(),
            old(self)@.pending is Idle,
        ensures
            final(self)@.wf(),
            ({
                let sp = begin_segments_spec(
                    old(self)@,
                    RequestView { purpose, permalink_url: permalink_url.deep_view() },
                    segments.deep_view(),
                    init_segment_url.deep_view(),
                );
                final(self)@ == sp.0 && final(evs).deep_view() == old(evs).deep_view() + sp.1
                    && final(acts).deep_view() == old(acts).deep_view() + sp.2
            }),
    {
        let ghost rv = RequestView { purpose, permalink_url: permalink_url.deep_view() };
        let ghost sp = begin_segments_spec(
            old(self)@,
            rv,
            segments.deep_view(),
            init_segment_url.deep_view(),
        );
        if segments.len() == 0 {
            push_fail(evs, purpose, "no segments in stream manifest".as_bytes_vec());
            proof {
                assert(self@ =~~= sp.0);
                assert(acts.deep_view() =~= old(acts).deep_view() + sp.2);
            }
            return ;
        }
        let mut queue: Vec<Vec<u8>> = Vec::new();
        let ghost initlen: int = match init_segment_url.deep_view() {
            Some(_) => 1int,
            None => 0int,
        };
        match &init_segment_url {
            Some(u) => {
                queue.push(copy_bytes(u));
                proof {
                    assert(queue.deep_view() =~~= seq![u@]);
                }
            },
            None => {},
        }
        let ghost segs = segments.deep_view();
        let mut i: usize = 0;
        while i < segments.len()
            invariant
                i <= segments@.len(),
                segs == segments.deep_view(),
                segs.len() == segments@.len(),
                initlen == (match init_segment_url.deep_view() {
                    Some(_) => 1int,
                    None => 0int,
                }),
                queue.deep_view().len() == initlen + i,
                (init_segment_url.deep_view() matches Some(u) ==> queue.deep_view()[0] == u),
                forall|j: int| 0 <= j < i ==> queue.deep_view()[initlen + j] == segs[j].uri,
            decreases segments@.len() - i,
        {
            let ghost qv = queue.deep_view();
            let uc = copy_bytes(&segments[i].uri);
            queue.push(uc);
            proof {
                assert(queue.deep_view() =~~= qv.push(segs[i as int].uri));
            }
            i += 1;
        }
        proof {
            let target = queue_of(init_segment_url.deep_view(), segs);
            assert(target.len() == initlen + segs.len());
            assert forall|j: int| 0 <= j < target.len() implies queue.deep_view()[j] == target[j] by {
                if j < initlen {
                    assert(init_segment_url.deep_view() matches Some(u) && target[0] == u);
                } else {
                    assert(target[j] == segs.map_values(
                        |sg: crate::hls::HlsSegmentView| sg.uri,
                    )[j - initlen]);
                    assert(queue.deep_view()[initlen + (j - initlen)] == segs[j - initlen].uri);
                }
            }
            assert(queue.deep_view() =~= queue_of(init_segment_url.deep_view(), segs));
        }
        let first = copy_bytes(&queue[0]);
        proof {
            assert(first@ =~= queue.deep_view()[0]);
        }
        self.pending = Pending::AwaitSegments {
            req: Request { purpose, permalink_url },
            queue,
            next: 0,
            assembled: Vec::new(),
        };
        acts.push(Action::FetchSegment(first));
        proof {
            assert(self@ =~~= sp.0);
            assert(evs.deep_view() =~= old(evs).deep_view() + sp.1);
            assert(acts.deep_view() =~= old(acts).deep_view() + sp.2);
        }
    }

    /// Apply a manifest-fetch result. See [`step_on_manifest`].
    pub fn on_manifest(&mut self, res: Result<Vec<u8>, Vec<u8>>) -> (r: (
        Vec<AudioEvent>,
        Vec<Action>,
    ))
        requires
            old(self)@.wf(),
            old(self)@.pending is AwaitManifest,
        ensures
            final(self)@.wf(),
            final(self)@ == step_on_manifest(old(self)@, res_bytes_view(res)).0,
            r.0.deep_view() == step_on_manifest(old(self)@, res_bytes_view(res)).1,
            r.1.deep_view() == step_on_manifest(old(self)@, res_bytes_view(res)).2,
    {
        let ghost sp = step_on_manifest(old(self)@, res_bytes_view(res));
        let mut evs: Vec<AudioEvent> = Vec::new();
        let mut acts: Vec<Action> = Vec::new();
        let p = self.take_pending();
        match p {
            Pending::AwaitManifest { url, req, fallback } => {
                let Request { purpose, permalink_url } = req;
                match res {
                    Err(m) => {
                        push_fail(&mut evs, purpose, m);
                        proof {
                            assert(self@ =~~= sp.0);
                            assert(evs.deep_view() =~= sp.1);
                            assert(acts.deep_view() =~= sp.2);
                        }
                    },
                    Ok(bytes) => {
                        match parse_media_playlist(bytes.as_slice(), url.as_slice()) {
                            Err(e) => {
                                push_fail(&mut evs, purpose, manifest_error_message_exec(e));
                                proof {
                                    assert(self@ =~~= sp.0);
                                    assert(evs.deep_view() =~= sp.1);
                                    assert(acts.deep_view() =~= sp.2);
                                }
                            },
                            Ok(m) => {
                                let ghost mv = m@;
                                let crate::hls::HlsStream {
                                    segments,
                                    target_duration: _,
                                    encryption,
                                    init_segment_url,
                                } = m;
                                let drm = match &encryption {
                                    Some(e) => is_commercial_drm(e),
                                    None => false,
                                };
                                if drm {
                                    match encryption {
                                        Some(enc) => {
                                            let dt = match enc.keyformat {
                                                Some(k) => {
                                                    proof {
                                                        assert(k.deep_view() =~= k@);
                                                    }
                                                    k
                                                },
                                                None => "encrypted".as_bytes_vec(),
                                            };
                                            proof {
                                                assert(dt@ == drm_type_of(mv.encryption->0));
                                            }
                                            match permalink_url {
                                                Some(pl) => {
                                                    proof {
                                                        assert(pl.deep_view() =~= pl@);
                                                    }
                                                    if !fallback && pl.len() > 0 {
                                                        let pc = copy_bytes(&pl);
                                                        self.pending = Pending::AwaitResolver {
                                                            req: Request {
                                                                purpose,
                                                                permalink_url: Some(pl),
                                                            },
                                                            drm_type: dt,
                                                        };
                                                        acts.push(Action::RunResolver(pc));
                                                        proof {
                                                            assert(self@ =~~= sp.0);
                                                            assert(evs.deep_view() =~= sp.1);
                                                            assert(acts.deep_view() =~= sp.2);
                                                        }
                                                    } else {
                                                        match purpose {
                                                            Purpose::Play => {
                                                                evs.push(
                                                                    AudioEvent::DrmProtected {
                                                                        drm_type: dt,
                                                                        track_url: pl,
                                                                    },
                                                                );
                                                                evs.push(
                                                                    AudioEvent::Buffering(false),
                                                                );
                                                            },
                                                            Purpose::Preload(_) => {},
                                                        }
                                                        proof {
                                                            assert(self@ =~~= sp.0);
                                                            assert(evs.deep_view() =~= sp.1);
                                                            assert(acts.deep_view() =~= sp.2);
                                                        }
                                                    }
                                                },
                                                None => {
                                                    match purpose {
                                                        Purpose::Play => {
                                                            evs.push(
                                                                AudioEvent::DrmProtected {
                                                                    drm_type: dt,
                                                                    track_url: Vec::new(),
                                                                },
                                                            );
                                                            evs.push(AudioEvent::Buffering(false));
                                                        },
                                                        Purpose::Preload(_) => {},
                                                    }
                                                    proof {
                                                        assert(self@ =~~= sp.0);
                                                        assert(evs.deep_view() =~= sp.1);
                                                        assert(acts.deep_view() =~= sp.2);
                                                    }
                                                },
                                            }
                                        },
                                        None => {
                                            proof {
                                                assert(false);
                                            }
                                        },
                                    }
                                } else {
                                    self.begin_segments(
                                        purpose,
                                        permalink_url,
                                        segments,
                                        init_segment_url,
                                        &mut evs,
                                        &mut acts,
                                    );
                                    proof {
                                        assert(self@ =~~= sp.0);
                                        assert(evs.deep_view() =~= sp.1);
                                        assert(acts.deep_view() =~= sp.2);
                                    }
                                }
                            },
                        }
                    },
                }
            },
            _ => {
                proof {
                    assert(false);
                }
            },
        }
        (evs, acts)
    }

    /// Apply a resolver result. See [`step_on_resolver`].
    pub fn on_resolver(&mut self, res: Option<Vec<u8>>) -> (r: (Vec<AudioEvent>, Vec<Action>))
        requires
            old(self)@.wf(),
            old(self)@.pending is AwaitResolver,
        ensures
            final(self)@.wf(),
            final(self)@ == step_on_resolver(old(self)@, res.deep_view()).0,
            r.0.deep_view() == step_on_resolver(old(self)@, res.deep_view()).1,
            r.1.deep_view() == step_on_resolver(old(self)@, res.deep_view()).2,
    {
        let ghost sp = step_on_resolver(old(self)@, res.deep_view());
        let mut evs: Vec<AudioEvent> = Vec::new();
        let mut acts: Vec<Action> = Vec::new();
        let p = self.take_pending();
        match p {
            Pending::AwaitResolver { req, drm_type } => {
                let Request { purpose, permalink_url } = req;
                match res {
                    Some(url) => {
                        proof {
                            assert(url.deep_view() =~= url@);
                        }
                        let uc = copy_bytes(&url);
                        self.pending = Pending::AwaitManifest {
                            url,
                            req: Request { purpose, permalink_url },
                            fallback: true,
                        };
                        acts.push(Action::FetchManifest(uc));
                        proof {
                            assert(self@ =~~= sp.0);
                            assert(evs.deep_view() =~= sp.1);
                            assert(acts.deep_view() =~= sp.2);
                        }
                    },
                    None => {
                        proof {
                            assert(permalink_url matches Some(pl) ==> pl.deep_view() =~= pl@);
                        }
                        match purpose {
                            Purpose::Play => {
                                evs.push(
                                    AudioEvent::DrmProtected {
                                        drm_type,
                                        track_url: match permalink_url {
                                            Some(pl) => pl,
                                            None => Vec::new(),
                                        },
                                    },
                                );
                                evs.push(AudioEvent::Buffering(false));
                            },
                            Purpose::Preload(_) => {},
                        }
                        proof {
                            assert(self@ =~~= sp.0);
                            assert(evs.deep_view() =~= sp.1);
                            assert(acts.deep_view() =~= sp.2);
                        }
                    },
                }
            },
            _ => {
                proof {
                    assert(false);
                }
            },
        }
        (evs, acts)
    }

    /// Apply a segment-fetch result. See [`step_on_segment`].
    pub fn on_segment(&mut self, res: Result<Vec<u8>, Vec<u8>>) -> (r: (
        Vec<AudioEvent>,
        Vec<Action>,
    ))
        requires
            old(self)@.wf(),
            old(self)@.pending is AwaitSegments,
        ensures
            final(self)@.wf(),
            final(self)@ == step_on_segment(old(self)@, res_bytes_view(res)).0,
            r.0.deep_view() == step_on_segment(old(self)@, res_bytes_view(res)).1,
            r.1.deep_view() == step_on_segment(old(self)@, res_bytes_view(res)).2,
    {
        let ghost sp = step_on_segment(old(self)@, res_bytes_view(res));
        let mut evs: Vec<AudioEvent> = Vec::new();
        let mut acts: Vec<Action> = Vec::new();
        let p = self.take_pending();
        match p {
            Pending::AwaitSegments { req, queue, next, assembled } => {
                let Request { purpose, permalink_url } = req;
                match res {
                    Err(m) => {
                        push_fail(&mut evs, purpose, m);
                        proof {
                            assert(self@ =~~= sp.0);
                            assert(evs.deep_view() =~= sp.1);
                            assert(acts.deep_view() =~= sp.2);
                        }
                    },
                    Ok(d) => {
                        let qlen = queue.len();
                        let mut assembled = assembled;
                        let mut d = d;
                        assembled.append(&mut d);
                        if next + 1 < qlen {
                            let uc = copy_bytes(&queue[next + 1]);
                            proof {
                                assert(uc@ =~= queue.deep_view()[next + 1]);
                            }
                            self.pending = Pending::AwaitSegments {
                                req: Request { purpose, permalink_url },
                                queue,
                                next: next + 1,
                                assembled,
                            };
                            acts.push(Action::FetchSegment(uc));
                            proof {
                                assert(self@ =~~= sp.0);
                                assert(evs.deep_view() =~= sp.1);
                                assert(acts.deep_view() =~= sp.2);
                            }
                        } else {
                            match purpose {
                                Purpose::Play => {
                                    self.pending = Pending::AwaitDecode { remove_after: None };
                                    acts.push(Action::DecodePlay(assembled));
                                    proof {
                                        assert(self@ =~~= sp.0);
                                        assert(evs.deep_view() =~= sp.1);
                                        assert(acts.deep_view() =~= sp.2);
                                    }
                                },
                                Purpose::Preload(id) => {
                                    if assembled.len() > 0 {
                                        self.pending = Pending::AwaitCacheWrite { track_id: id };
                                        acts.push(Action::WriteCache(id, assembled));
                                        proof {
                                            assert(self@ =~~= sp.0);
                                            assert(evs.deep_view() =~= sp.1);
                                            assert(acts.deep_view() =~= sp.2);
                                        }
                                    } else {
                                        proof {
                                            assert(self@ =~~= sp.0);
                                            assert(evs.deep_view() =~= sp.1);
                                            assert(acts.deep_view() =~= sp.2);
                                        }
                                    }
                                },
                            }
                        }
                    },
                }
            },
            _ => {
                proof {
                    assert(false);
                }
            },
        }
        (evs, acts)
    }

    /// Apply a progressive-open result. See [`step_on_progressive`].
    pub fn on_progressive(&mut self, err: Option<Vec<u8>>, now_ms: u64) -> (r: (
        Vec<AudioEvent>,
        Vec<Action>,
    ))
        requires
            old(self)@.wf(),
            old(self)@.pending is AwaitProgressive,
        ensures
            final(self)@.wf(),
            final(self)@ == step_on_progressive(old(self)@, err.deep_view(), now_ms).0,
            r.0.deep_view() == step_on_progressive(old(self)@, err.deep_view(), now_ms).1,
            r.1.deep_view() == step_on_progressive(old(self)@, err.deep_view(), now_ms).2,
    {
        let ghost sp = step_on_progressive(old(self)@, err.deep_view(), now_ms);
        let mut evs: Vec<AudioEvent> = Vec::new();
        let acts: Vec<Action> = Vec::new();
        let p = self.take_pending();
        match p {
            Pending::AwaitProgressive => {
                match err {
                    None => {
                        self.sink_active = true;
                        self.playback_start = Some(now_ms);
                        self.accumulated_ms = 0;
                        self.is_paused = false;
                        self.was_playing = true;
                        evs.push(AudioEvent::Buffering(false));
                        evs.push(AudioEvent::Playing);
                    },
                    Some(m) => {
                        proof {
                            assert(m.deep_view() =~= m@);
                        }
                        evs.push(AudioEvent::Error(m));
                        evs.push(AudioEvent::Buffering(false));
                    },
                }
                proof {
                    assert(self@ =~~= sp.0);
                    assert(evs.deep_view() =~= sp.1);
                    assert(acts.deep_view() =~= sp.2);
                }
            },
            _ => {
                proof {
                    assert(false);
                }
            },
        }
        (evs, acts)
    }

    /// Apply a decode result. See [`step_on_decode`].
    pub fn on_decode(&mut self, err: Option<Vec<u8>>, now_ms: u64) -> (r: (
        Vec<AudioEvent>,
        Vec<Action>,
    ))
        requires
            old(self)@.wf(),
            old(self)@.pending is AwaitDecode,
        ensures
            final(self)@.wf(),
            final(self)@ == step_on_decode(old(self)@, err.deep_view(), now_ms).0,
            r.0.deep_view() == step_on_decode(old(self)@, err.deep_view(), now_ms).1,
            r.1.deep_view() == step_on_decode(old(self)@, err.deep_view(), now_ms).2,
    {
        let ghost sp = step_on_decode(old(self)@, err.deep_view(), now_ms);
        let mut evs: Vec<AudioEvent> = Vec::new();
        let mut acts: Vec<Action> = Vec::new();
        let p = self.take_pending();
        match p {
            Pending::AwaitDecode { remove_after } => {
                match err {
                    None => {
                        self.sink_active = true;
                        self.playback_start = Some(now_ms);
                        self.accumulated_ms = 0;
                        self.is_paused = false;
                        self.was_playing = true;
                        evs.push(AudioEvent::Buffering(false));
                        evs.push(AudioEvent::Playing);
                    },
                    Some(m) => {
                        proof {
                            assert(m.deep_view() =~= m@);
                        }
                        evs.push(AudioEvent::Error(m));
                        evs.push(AudioEvent::Buffering(false));
                    },
                }
                match remove_after {
                    Some(id) => {
                        acts.push(Action::RemoveCache(id));
                    },
                    None => {},
                }
                proof {
                    assert(self@ =~~= sp.0);
                    assert(evs.deep_view() =~= sp.1);
                    assert(acts.deep_view() =~= sp.2);
                }
            },
            _ => {
                proof {
                    assert(false);
                }
            },
        }
        (evs, acts)
    }

    /// Apply a cache-write result. See [`step_on_cache_written`].
    pub fn on_cache_written(&mut self, ok: bool) -> (r: (Vec<AudioEvent>, Vec<Action>))
        requires
            old(self)@.wf(),
            old(self)@.pending is AwaitCacheWrite,
        ensures
            final(self)@.wf(),
            final(self)@ == step_on_cache_written(old(self)@, ok).0,
            r.0.deep_view() == step_on_cache_written(old(self)@, ok).1,
            r.1.deep_view() == step_on_cache_written(old(self)@, ok).2,
    {
        let ghost sp = step_on_cache_written(old(self)@, ok);
        let mut evs: Vec<AudioEvent> = Vec::new();
        let acts: Vec<Action> = Vec::new();
        let p = self.take_pending();
        match p {
            Pending::AwaitCacheWrite { track_id } => {
                if ok {
                    evs.push(AudioEvent::PreloadComplete(track_id));
                }
                proof {
                    assert(self@ =~~= sp.0);
                    assert(evs.deep_view() =~= sp.1);
                    assert(acts.deep_view() =~= sp.2);
                }
            },
            _ => {
                proof {
                    assert(false);
                }
            },
        }
        (evs, acts)
    }

    /// Dispatch one mailbox command to its transition.
    pub fn handle_command(&mut self, cmd: AudioCommand, now_ms: u64) -> (r: (
        Vec<AudioEvent>,
        Vec<Action>,
    ))
        requires
            old(self)@.wf(),
            old(self)@.pending is Idle,
            old(self)@.clock_ok(now_ms),
        ensures
            final(self)@.wf(),
            match cmd {
                AudioCommand::Play { track_id, stream_url, permalink_url } => ({
                    let sp = step_play(
                        old(self)@,
                        track_id,
                        stream_url@,
                        permalink_url.deep_view(),
                    );
                    final(self)@ == sp.0 && r.0.deep_view() == sp.1 && r.1.deep_view() == sp.2
                }),
                AudioCommand::Preload { track_id, stream_url, permalink_url } => ({
                    let sp = step_preload(
                        old(self)@,
                        track_id,
                        stream_url@,
                        permalink_url.deep_view(),
                    );
                    final(self)@ == sp.0 && r.0.deep_view() == sp.1 && r.1.deep_view() == sp.2
                }),
                AudioCommand::Pause => ({
                    let sp = step_pause(old(self)@, now_ms);
                    final(self)@ == sp.0 && r.0.deep_view() == sp.1 && r.1.deep_view() == sp.2
                }),
                AudioCommand::Resume => ({
                    let sp = step_resume(old(self)@, now_ms);
                    final(self)@ == sp.0 && r.0.deep_view() == sp.1 && r.1.deep_view() == sp.2
                }),
                AudioCommand::Stop => ({
                    let sp = step_stop(old(self)@);
                    final(self)@ == sp.0 && r.0.deep_view() == sp.1 && r.1.deep_view() == sp.2
                }),
                AudioCommand::SetVolume(v) => ({
                    let sp = step_set_volume(old(self)@, v);
                    final(self)@ == sp.0 && r.0.deep_view() == sp.1 && r.1.deep_view() == sp.2
                }),
            },
    {
        match cmd {
            AudioCommand::Play { track_id, stream_url, permalink_url } => self.play(
                track_id,
                stream_url,
                permalink_url,
            ),
            AudioCommand::Preload { track_id, stream_url, permalink_url } => self.preload(
                track_id,
                stream_url,
                permalink_url,
            ),
            AudioCommand::Pause => self.pause(now_ms),
            AudioCommand::Resume => self.resume(now_ms),
            AudioCommand::Stop => self.stop(),
            AudioCommand::SetVolume(v) => self.set_volume(v),
        }
    }
}


// ---------------------------------------------------------------------------
// Laws about the fetch pipeline.
// ---------------------------------------------------------------------------

/// Actions that touch the network.
pub open spec fn is_network_action(a: ActionView) -> bool {
    a is FetchManifest || a is FetchSegment || a is PlayProgressive
}

/// The cache fast path: playing a cached track asks only for the cache
/// read, the decode, and the removal of the consumed entry — no step of
/// the path performs a network fetch, and the entry is removed in the same
/// step that announces playback.
pub proof fn lemma_cache_fast_path(
    s: PlayerView,
    id: u64,
    url: Seq<u8>,
    permalink: Option<Seq<u8>>,
    data: Seq<u8>,
    now: u64,
)
    requires
        s.wf(),
        s.pending is Idle,
    ensures
        ({
            let (s1, e1, a1) = step_play(s, Some(id), url, permalink);
            let (s2, e2, a2) = step_on_cache_read(s1, Some(data));
            let (s3, e3, a3) = step_on_decode(s2, None, now);
            &&& a1 == step_stop(s).2 + seq![ActionView::ReadCache(id)]
            &&& a2 == seq![ActionView::DecodePlay(data)]
            &&& e3 == seq![AudioEventView::Buffering(false), AudioEventView::Playing]
            &&& a3 == seq![ActionView::RemoveCache(id)]
            &&& s3.pending is Idle
            &&& s3.sink_active
            &&& forall|k: int| 0 <= k < a1.len() ==> !is_network_action(#[trigger] a1[k])
            &&& forall|k: int| 0 <= k < a2.len() ==> !is_network_action(#[trigger] a2[k])
            &&& forall|k: int| 0 <= k < a3.len() ==> !is_network_action(#[trigger] a3[k])
        }),
{
    let (s1, e1, a1) = step_play(s, Some(id), url, permalink);
    if s.sink_active {
        assert(a1 =~= seq![ActionView::SinkStop, ActionView::ReadCache(id)]);
    } else {
        assert(a1 =~= seq![ActionView::ReadCache(id)]);
    }
}

/// A resolver-sourced manifest that is itself protected ends the play at
/// once: exactly one DRM-protected event, no error, and no further action —
/// in particular, no second resolver run.
pub proof fn lemma_fallback_never_recurses(s: PlayerView, bytes: Seq<u8>, m: HlsStreamView)
    requires
        s.wf(),
        s.pending matches PendingView::AwaitManifest { url, req, fallback } && fallback
            && req.purpose is Play && spec_parse_manifest(bytes, url) == Ok::<
            HlsStreamView,
            ManifestError,
        >(m),
        m.encryption matches Some(e) && spec_is_commercial_drm(e),
    ensures
        ({
            let (s2, evs, acts) = step_on_manifest(s, Ok(bytes));
            &&& acts == Seq::<ActionView>::empty()
            &&& evs.len() == 2
            &&& evs[0] is DrmProtected
            &&& evs[1] == AudioEventView::Buffering(false)
            &&& s2.pending is Idle
        }),
{
}

/// A resolver run is requested only while handling a primary (non-fallback)
/// manifest, and it leaves the engine waiting on the resolver.
pub proof fn lemma_resolver_only_from_primary(s: PlayerView, res: Result<Seq<u8>, Seq<u8>>, k: int)
    requires
        0 <= k < step_on_manifest(s, res).2.len(),
        step_on_manifest(s, res).2[k] is RunResolver,
    ensures
        s.pending matches PendingView::AwaitManifest { fallback, .. } && !fallback,
        step_on_manifest(s, res).0.pending is AwaitResolver,
{
}

/// What the resolver yields is always fetched as a fallback manifest, so
/// the one-shot rule above applies to it.
pub proof fn lemma_resolver_result_is_marked(s: PlayerView, url: Seq<u8>)
    requires
        s.pending is AwaitResolver,
    ensures
        step_on_resolver(s, Some(url)).0.pending matches PendingView::AwaitManifest {
            fallback,
            ..
        } && fallback,
{
}

/// All queued chunks, concatenated in order.
pub open spec fn concat_all(chunks: Seq<Seq<u8>>) -> Seq<u8>
    decreases chunks.len(),
{
    if chunks.len() == 0 {
        Seq::<u8>::empty()
    } else {
        chunks.first() + concat_all(chunks.drop_first())
    }
}

/// Feed successful segment fetches one after another; the result is the
/// final state and the actions of the last step.
pub open spec fn feed_segments(s: PlayerView, chunks: Seq<Seq<u8>>) -> (PlayerView, Seq<ActionView>)
    decreases chunks.len(),
{
    if chunks.len() == 0 {
        (s, Seq::<ActionView>::empty())
    } else {
        let st = step_on_segment(s, Ok(chunks.first()));
        if chunks.len() == 1 {
            (st.0, st.2)
        } else {
            feed_segments(st.0, chunks.drop_first())
        }
    }
}

/// Segment assembly order: downloading the remaining queue hands the
/// decoder exactly the bytes assembled so far followed by every fetched
/// chunk, concatenated in queue order — the initialization segment first,
/// then each media segment.
pub proof fn lemma_assembly_order(
    s: PlayerView,
    req: RequestView,
    queue: Seq<Seq<u8>>,
    next: usize,
    assembled: Seq<u8>,
    chunks: Seq<Seq<u8>>,
)
    requires
        s.wf(),
        s.pending == (PendingView::AwaitSegments { req, queue, next, assembled }),
        req.purpose is Play,
        queue.len() <= usize::MAX,
        chunks.len() == queue.len() - next,
        chunks.len() > 0,
    ensures
        ({
            let (sf, acts) = feed_segments(s, chunks);
            &&& acts == seq![ActionView::DecodePlay(assembled + concat_all(chunks))]
            &&& sf.pending == (PendingView::AwaitDecode { remove_after: None })
        }),
    decreases chunks.len(),
{
    let st = step_on_segment(s, Ok(chunks.first()));
    if chunks.len() == 1 {
        assert(concat_all(chunks.drop_first()) =~= Seq::<u8>::empty());
        assert(assembled + concat_all(chunks) =~= assembled + chunks.first());
        assert(st.2 =~= seq![ActionView::DecodePlay(assembled + concat_all(chunks))]);
    } else {
        assert(st.0.pending == (PendingView::AwaitSegments {
            req,
            queue,
            next: (next + 1) as usize,
            assembled: assembled + chunks.first(),
        }));
        lemma_assembly_order(
            st.0,
            req,
            queue,
            (next + 1) as usize,
            assembled + chunks.first(),
            chunks.drop_first(),
        );
        assert((assembled + chunks.first()) + concat_all(chunks.drop_first()) =~= assembled
            + concat_all(chunks));
        assert(feed_segments(st.0, chunks.drop_first()).1 =~= seq![ActionView::DecodePlay(
            assembled + concat_all(chunks),
        )]);
    }
}


/// An in-flight operation that belongs to a preload rather than a play.
pub open spec fn preload_pending(s: PlayerView) -> bool {
    match s.pending {
        PendingView::AwaitCacheProbe { .. } => true,
        PendingView::AwaitCacheWrite { .. } => true,
        PendingView::AwaitManifest { req, .. } => req.purpose is Preload,
        PendingView::AwaitResolver { req, .. } => req.purpose is Preload,
        PendingView::AwaitSegments { req, .. } => req.purpose is Preload,
        _ => false,
    }
}

/// A preload emits nothing but its completion event: transport errors,
/// parse errors, protected streams and cache-write failures are all
/// swallowed silently, whatever outcome comes back.
pub proof fn lemma_preload_emits_only_completion(
    s: PlayerView,
    res: Result<Seq<u8>, Seq<u8>>,
    ourl: Option<Seq<u8>>,
    ok: bool,
)
    requires
        preload_pending(s),
    ensures
        forall|k: int|
            0 <= k < step_on_manifest(s, res).1.len() ==> #[trigger] step_on_manifest(
                s,
                res,
            ).1[k] is PreloadComplete,
        forall|k: int|
            0 <= k < step_on_resolver(s, ourl).1.len() ==> #[trigger] step_on_resolver(
                s,
                ourl,
            ).1[k] is PreloadComplete,
        forall|k: int|
            0 <= k < step_on_segment(s, res).1.len() ==> #[trigger] step_on_segment(
                s,
                res,
            ).1[k] is PreloadComplete,
        forall|k: int|
            0 <= k < step_on_cache_probe(s, ok).1.len() ==> #[trigger] step_on_cache_probe(
                s,
                ok,
            ).1[k] is PreloadComplete,
        forall|k: int|
            0 <= k < step_on_cache_written(s, ok).1.len() ==> #[trigger] step_on_cache_written(
                s,
                ok,
            ).1[k] is PreloadComplete,
{
}

} // verus!
