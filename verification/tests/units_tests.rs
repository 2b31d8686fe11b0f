use playback_engine::cache::cache_file_name;
use playback_engine::config::RepeatMode;
use playback_engine::resolver::{interpret_resolver_output, ResolverError};
use playback_engine::text::{contains_sub, eq_bytes, parse_digits, starts_with, trim};
use playback_engine::track::{Media, Track, TrackUser, Transcoding, TranscodingFormat};
use playback_engine::volume::parse_volume_percent;

fn b(s: &str) -> Vec<u8> {
    s.as_bytes().to_vec()
}

fn tc(protocol: &str, mime: &str, url: &str) -> Transcoding {
    Transcoding {
        url: url.to_string(),
        format: TranscodingFormat {
            protocol: protocol.to_string(),
            mime_type: mime.to_string(),
        },
        quality: None,
    }
}

fn track_with(transcodings: Vec<Transcoding>) -> Track {
    Track {
        id: 1,
        title: "title".to_string(),
        user: TrackUser { id: 2, username: "artist".to_string(), avatar_url: None },
        artwork_url: None,
        duration: 0,
        media: Some(Media { transcodings }),
        permalink_url: None,
        playback_count: 0,
        likes_count: 0,
        track_authorization: None,
    }
}

#[test]
fn byte_helpers_behave() {
    assert!(starts_with(b"#EXTM3U rest", b"#EXTM3U"));
    assert!(!starts_with(b"#EXT", b"#EXTM3U"));
    assert!(contains_sub(b"https://a/ctr-encrypted-hls/x", b"ctr-encrypted-hls"));
    assert!(!contains_sub(b"plain", b"ctr-encrypted-hls"));
    assert!(eq_bytes(b"abc", b"abc"));
    assert!(!eq_bytes(b"abc", b"abd"));
    assert_eq!(trim(b"  \thttps://u \r\n"), b("https://u"));
    assert_eq!(parse_digits(b"12345", 19), Some(12_345));
    assert_eq!(parse_digits(b"12a45", 19), None);
    assert_eq!(parse_digits(b"", 19), None);
    assert_eq!(parse_digits(b"9999999999999999999", 19), Some(9_999_999_999_999_999_999));
}

#[test]
fn resolver_output_interpretation() {
    let r = interpret_resolver_output(false, b("ignored"), b("no formats found"));
    assert_eq!(r, Err(ResolverError::ResolverFailed(b("no formats found"))));
    let r = interpret_resolver_output(true, b("  \n"), Vec::new());
    assert_eq!(r, Err(ResolverError::EmptyResult));
    let r = interpret_resolver_output(true, b("https://cdn/stream.m3u8\n"), Vec::new());
    assert_eq!(r, Ok(b("https://cdn/stream.m3u8")));
}

#[test]
fn cache_names_are_deterministic() {
    assert_eq!(cache_file_name(0), b("0.audio"));
    assert_eq!(cache_file_name(7), b("7.audio"));
    assert_eq!(cache_file_name(1_234_567_890_123), b("1234567890123.audio"));
    assert_eq!(cache_file_name(u64::MAX), b("18446744073709551615.audio"));
}

#[test]
fn duration_formats_as_minutes_and_seconds() {
    let mut t = track_with(Vec::new());
    t.duration = 0;
    assert_eq!(t.duration_formatted(), "0:00");
    t.duration = 61_000;
    assert_eq!(t.duration_formatted(), "1:01");
    t.duration = 125_400;
    assert_eq!(t.duration_formatted(), "2:05");
    t.duration = 600_000;
    assert_eq!(t.duration_formatted(), "10:00");
    t.duration = 3_599_999;
    assert_eq!(t.duration_formatted(), "59:59");
    t.duration = 3_600_000;
    assert_eq!(t.duration_formatted(), "60:00");
}

#[test]
fn stub_tracks_are_incomplete() {
    let mut t = track_with(Vec::new());
    assert!(t.is_complete());
    t.title = String::new();
    assert!(!t.is_complete());
    t.title = "x".to_string();
    t.user.username = String::new();
    assert!(!t.is_complete());
}

#[test]
fn progressive_prefers_mpeg() {
    let t = track_with(vec![
        tc("progressive", "audio/mp4", "u1"),
        tc("progressive", "audio/mpeg", "u2"),
    ]);
    assert_eq!(t.progressive_transcoding().unwrap().url, "u2");
    let t = track_with(vec![tc("progressive", "audio/mp4", "u1")]);
    assert_eq!(t.progressive_transcoding().unwrap().url, "u1");
    let t = track_with(vec![tc("hls", "audio/mpeg", "u1")]);
    assert!(t.progressive_transcoding().is_none());
    let mut t = track_with(Vec::new());
    t.media = None;
    assert!(t.progressive_transcoding().is_none());
}

#[test]
fn hls_prefers_mpeg_and_avoids_encrypted() {
    let t = track_with(vec![
        tc("hls", "audio/mp4", "https://a/plain"),
        tc("hls", "audio/mpeg", "https://a/mp3"),
    ]);
    assert_eq!(t.hls_transcoding().unwrap().url, "https://a/mp3");
    let t = track_with(vec![
        tc("hls", "audio/mp4", "https://a/ctr-encrypted-hls/x"),
        tc("hls", "audio/mp4", "https://a/plain"),
    ]);
    assert_eq!(t.hls_transcoding().unwrap().url, "https://a/plain");
    let t = track_with(vec![tc("hls", "audio/mp4", "https://a/cbc-encrypted-hls/x")]);
    assert!(t.hls_transcoding().is_none());
    // The fallback shuns any URL that so much as mentions encryption, not
    // only the two exact markers — even when no alternative is left.
    let t = track_with(vec![tc("hls", "audio/mp4", "encrypted")]);
    assert!(t.hls_transcoding().is_none());
    assert!(t.encrypted_hls_transcoding().is_none());
    assert!(t.best_transcoding().is_none());
    // An mpeg mime still wins regardless of the URL.
    let t = track_with(vec![tc("hls", "audio/mpeg", "encrypted")]);
    assert_eq!(t.hls_transcoding().unwrap().url, "encrypted");
}

#[test]
fn encrypted_transcoding_is_found_by_url() {
    let t = track_with(vec![
        tc("progressive", "audio/mpeg", "plain"),
        tc("hls", "audio/mp4", "https://a/cbc-encrypted-hls/x"),
    ]);
    assert_eq!(
        t.encrypted_hls_transcoding().unwrap().url,
        "https://a/cbc-encrypted-hls/x"
    );
}

#[test]
fn best_transcoding_prefers_hls_then_progressive_then_encrypted() {
    let t = track_with(vec![
        tc("progressive", "audio/mpeg", "prog"),
        tc("hls", "audio/mpeg", "hls"),
        tc("hls", "audio/mp4", "https://a/ctr-encrypted-hls/x"),
    ]);
    assert_eq!(t.best_transcoding().unwrap().url, "hls");
    let t = track_with(vec![
        tc("progressive", "audio/mpeg", "prog"),
        tc("hls", "audio/mp4", "https://a/ctr-encrypted-hls/x"),
    ]);
    assert_eq!(t.best_transcoding().unwrap().url, "prog");
    let t = track_with(vec![tc("hls", "audio/mp4", "https://a/ctr-encrypted-hls/x")]);
    assert_eq!(
        t.best_transcoding().unwrap().url,
        "https://a/ctr-encrypted-hls/x"
    );
    let t = track_with(Vec::new());
    assert!(t.best_transcoding().is_none());
}

#[test]
fn repeat_mode_defaults_off() {
    assert_eq!(RepeatMode::default(), RepeatMode::Off);
}

#[test]
fn volume_report_yields_first_percentage() {
    let report =
        "Volume: front-left: 65536 / 100% / 0.00 dB,   front-right: 62259 / 95% / -1.32 dB";
    assert_eq!(parse_volume_percent(report.as_bytes()), Some(100));
    assert_eq!(parse_volume_percent(b"Volume: mono: 19661 /  30% / -31.37 dB"), Some(30));
    // No percentage at all.
    assert_eq!(parse_volume_percent(b"Volume: mono: 19661"), None);
    // A field that is only junk before the sign is skipped; so is one whose
    // number a 32-bit parse would reject.
    assert_eq!(parse_volume_percent(b"x / loud% / 12345678901% / 20% / 5%"), Some(20));
    // Extra percent signs and inner spacing are tolerated.
    assert_eq!(parse_volume_percent(b"a / 65 %% / b"), Some(65));
}
