use playback_engine::player::{Action, AudioCommand, AudioEvent, AudioPlayer};

fn b(s: &str) -> Vec<u8> {
    s.as_bytes().to_vec()
}

fn start_progressive(p: &mut AudioPlayer, now: u64) {
    let (evs, acts) = p.play(None, b("http://host/track.mp3"), None);
    assert_eq!(evs, vec![AudioEvent::Buffering(true)]);
    assert_eq!(acts, vec![Action::PlayProgressive(b("http://host/track.mp3"))]);
    let (evs, acts) = p.on_progressive(None, now);
    assert_eq!(evs, vec![AudioEvent::Buffering(false), AudioEvent::Playing]);
    assert!(acts.is_empty());
}

#[test]
fn stop_without_sink_is_silent() {
    let mut p = AudioPlayer::new();
    let (evs, acts) = p.stop();
    assert!(evs.is_empty());
    assert!(acts.is_empty());
    assert_eq!(p.volume, 800);
    assert!(!p.sink_active);
}

#[test]
fn stop_twice_emits_one_stopped() {
    let mut p = AudioPlayer::new();
    start_progressive(&mut p, 1_000);
    let (evs1, acts1) = p.handle_command(AudioCommand::Stop, 2_000);
    let (evs2, acts2) = p.handle_command(AudioCommand::Stop, 3_000);
    let stopped: Vec<&AudioEvent> = evs1
        .iter()
        .chain(evs2.iter())
        .filter(|e| matches!(e, AudioEvent::Stopped))
        .collect();
    assert_eq!(stopped.len(), 1);
    assert_eq!(acts1, vec![Action::SinkStop]);
    assert!(evs2.is_empty());
    assert!(acts2.is_empty());
}

#[test]
fn cache_fast_path_never_touches_network() {
    let mut p = AudioPlayer::new();
    let data = vec![1u8, 2, 3, 4];
    let (evs, acts) = p.play(Some(7), b("http://host/track.m3u8"), None);
    assert!(evs.is_empty());
    assert_eq!(acts, vec![Action::ReadCache(7)]);
    let (evs, acts) = p.on_cache_read(Some(data.clone()));
    assert_eq!(evs, vec![AudioEvent::Buffering(true)]);
    assert_eq!(acts, vec![Action::DecodePlay(data)]);
    let (evs, acts) = p.on_decode(None, 5_000);
    assert_eq!(evs, vec![AudioEvent::Buffering(false), AudioEvent::Playing]);
    assert_eq!(acts, vec![Action::RemoveCache(7)]);
    assert!(p.sink_active);
}

#[test]
fn cache_miss_falls_back_to_network() {
    let mut p = AudioPlayer::new();
    let (_, acts) = p.play(Some(9), b("http://host/list.m3u8"), None);
    assert_eq!(acts, vec![Action::ReadCache(9)]);
    let (evs, acts) = p.on_cache_read(None);
    assert_eq!(evs, vec![AudioEvent::Buffering(true)]);
    assert_eq!(acts, vec![Action::FetchManifest(b("http://host/list.m3u8"))]);
}

#[test]
fn cache_entry_removed_even_when_decode_fails() {
    let mut p = AudioPlayer::new();
    let (_, _) = p.play(Some(3), b("http://host/track.mp3"), None);
    let (_, _) = p.on_cache_read(Some(vec![0u8]));
    let (evs, acts) = p.on_decode(Some(b("bad audio")), 5_000);
    assert_eq!(
        evs,
        vec![AudioEvent::Error(b("bad audio")), AudioEvent::Buffering(false)]
    );
    assert_eq!(acts, vec![Action::RemoveCache(3)]);
    assert!(!p.sink_active);
}

#[test]
fn volume_clamps_low_and_high() {
    let mut p = AudioPlayer::new();
    let (evs, acts) = p.set_volume(-500);
    assert_eq!(p.volume, 0);
    assert!(evs.is_empty());
    assert!(acts.is_empty());
    let (_, _) = p.set_volume(1_700);
    assert_eq!(p.volume, 1_000);
    let (_, _) = p.set_volume(350);
    assert_eq!(p.volume, 350);
}

#[test]
fn volume_applies_to_active_sink_at_once() {
    let mut p = AudioPlayer::new();
    start_progressive(&mut p, 1_000);
    let (evs, acts) = p.handle_command(AudioCommand::SetVolume(1_700), 2_000);
    assert!(evs.is_empty());
    assert_eq!(acts, vec![Action::SinkSetVolume(1_000)]);
}

#[test]
fn pause_resume_accounts_elapsed_time() {
    let mut p = AudioPlayer::new();
    start_progressive(&mut p, 10_000);
    let (evs, _) = p.tick(12_000, false);
    assert_eq!(evs, vec![AudioEvent::Position(2_000)]);
    let (evs, acts) = p.pause(12_000);
    assert_eq!(evs, vec![AudioEvent::Paused]);
    assert_eq!(acts, vec![Action::SinkPause]);
    // Paused: ticks report no position.
    let (evs, _) = p.tick(15_000, false);
    assert!(evs.is_empty());
    let (evs, acts) = p.resume(15_000);
    assert_eq!(evs, vec![AudioEvent::Playing]);
    assert_eq!(acts, vec![Action::SinkResume]);
    // The three paused seconds do not count: 2s before + 1s after.
    let (evs, _) = p.tick(16_000, false);
    assert_eq!(evs, vec![AudioEvent::Position(3_000)]);
}

#[test]
fn drained_sink_finishes_track() {
    let mut p = AudioPlayer::new();
    start_progressive(&mut p, 1_000);
    let (evs, acts) = p.tick(4_000, true);
    assert_eq!(evs, vec![AudioEvent::Finished]);
    assert!(acts.is_empty());
    // A later tick is quiet; a stop still sees the (drained) sink.
    let (evs, _) = p.tick(4_500, true);
    assert!(evs.is_empty());
    let (evs, _) = p.stop();
    assert_eq!(evs, vec![AudioEvent::Stopped]);
}

#[test]
fn play_over_playback_stops_first() {
    let mut p = AudioPlayer::new();
    start_progressive(&mut p, 1_000);
    let (evs, acts) = p.play(None, b("http://host/next.mp3"), None);
    assert_eq!(evs, vec![AudioEvent::Stopped, AudioEvent::Buffering(true)]);
    assert_eq!(
        acts,
        vec![
            Action::SinkStop,
            Action::PlayProgressive(b("http://host/next.mp3")),
        ]
    );
}

#[test]
fn progressive_failure_reports_error() {
    let mut p = AudioPlayer::new();
    let (_, _) = p.play(None, b("http://host/track.mp3"), None);
    let (evs, acts) = p.on_progressive(Some(b("connection refused")), 2_000);
    assert_eq!(
        evs,
        vec![
            AudioEvent::Error(b("connection refused")),
            AudioEvent::Buffering(false),
        ]
    );
    assert!(acts.is_empty());
    assert!(!p.sink_active);
}

#[test]
fn preload_of_cached_track_completes_at_once() {
    let mut p = AudioPlayer::new();
    let (evs, acts) = p.preload(5, b("http://host/list.m3u8"), None);
    assert!(evs.is_empty());
    assert_eq!(acts, vec![Action::ProbeCache(5)]);
    let (evs, acts) = p.on_cache_probe(true);
    assert_eq!(evs, vec![AudioEvent::PreloadComplete(5)]);
    assert!(acts.is_empty());
}

#[test]
fn preload_progressive_fetches_and_writes_cache() {
    let mut p = AudioPlayer::new();
    let (_, _) = p.preload(5, b("http://host/track.mp3"), None);
    let (evs, acts) = p.on_cache_probe(false);
    assert!(evs.is_empty());
    assert_eq!(acts, vec![Action::FetchSegment(b("http://host/track.mp3"))]);
    let (evs, acts) = p.on_segment(Ok(vec![9u8, 9, 9]));
    assert!(evs.is_empty());
    assert_eq!(acts, vec![Action::WriteCache(5, vec![9u8, 9, 9])]);
    let (evs, acts) = p.on_cache_written(true);
    assert_eq!(evs, vec![AudioEvent::PreloadComplete(5)]);
    assert!(acts.is_empty());
}

#[test]
fn preload_failures_are_silent() {
    let mut p = AudioPlayer::new();
    let (_, _) = p.preload(5, b("http://host/track.mp3"), None);
    let (_, _) = p.on_cache_probe(false);
    let (evs, acts) = p.on_segment(Err(b("timeout")));
    assert!(evs.is_empty());
    assert!(acts.is_empty());

    let mut p2 = AudioPlayer::new();
    let (_, _) = p2.preload(6, b("http://host/track.mp3"), None);
    let (_, _) = p2.on_cache_probe(false);
    let (_, _) = p2.on_segment(Ok(vec![1u8]));
    let (evs, acts) = p2.on_cache_written(false);
    assert!(evs.is_empty());
    assert!(acts.is_empty());
}

#[test]
fn preload_does_not_disturb_playback() {
    let mut p = AudioPlayer::new();
    start_progressive(&mut p, 1_000);
    let (evs, _) = p.preload(8, b("http://host/next.mp3"), None);
    assert!(evs.is_empty());
    assert!(p.sink_active);
    assert!(p.was_playing);
}

#[test]
fn url_classification_is_a_substring_test() {
    // The only format-detection mechanism is the manifest extension
    // appearing in the URL, wherever it appears.
    let mut p = AudioPlayer::new();
    let (_, acts) = p.play(None, b("http://host/stream?fmt=.m3u8"), None);
    assert_eq!(
        acts,
        vec![Action::FetchManifest(b("http://host/stream?fmt=.m3u8"))]
    );
    let mut p = AudioPlayer::new();
    let (_, acts) = p.play(None, b("http://host/track.mp3"), None);
    assert_eq!(acts, vec![Action::PlayProgressive(b("http://host/track.mp3"))]);
}

#[test]
fn play_with_track_id_over_playback_stops_then_reads_cache() {
    let mut p = AudioPlayer::new();
    start_progressive(&mut p, 1_000);
    let (evs, acts) = p.play(Some(11), b("http://host/next.m3u8"), None);
    assert_eq!(evs, vec![AudioEvent::Stopped]);
    assert_eq!(acts, vec![Action::SinkStop, Action::ReadCache(11)]);
}
