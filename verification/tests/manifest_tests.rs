use playback_engine::hls::{
    is_commercial_drm, parse_media_playlist, HlsEncryption, ManifestError,
};
use playback_engine::player::{Action, AudioEvent, AudioPlayer};

fn b(s: &str) -> Vec<u8> {
    s.as_bytes().to_vec()
}

fn enc(method: &str, uri: Option<&str>, keyformat: Option<&str>) -> HlsEncryption {
    HlsEncryption {
        method: b(method),
        uri: uri.map(b),
        iv: None,
        keyformat: keyformat.map(b),
    }
}

#[test]
fn parses_a_flat_media_manifest() {
    let text = "#EXTM3U\n\
                #EXT-X-TARGETDURATION:4\n\
                #EXTINF:3.5,\n\
                a.mp3\n\
                #EXTINF:9.97,first track\n\
                http://cdn.example/b.mp3\n\
                #EXT-X-ENDLIST\n";
    let m = parse_media_playlist(text.as_bytes(), "http://host/path/list.m3u8".as_bytes())
        .expect("media manifest");
    assert_eq!(m.target_duration, 4);
    assert!(m.encryption.is_none());
    assert!(m.init_segment_url.is_none());
    assert_eq!(m.segments.len(), 2);
    assert_eq!(m.segments[0].uri, b("http://host/path/a.mp3"));
    assert_eq!(m.segments[0].duration_ms, 3_500);
    assert_eq!(m.segments[1].uri, b("http://cdn.example/b.mp3"));
    assert_eq!(m.segments[1].duration_ms, 9_970);
}

#[test]
fn handles_crlf_line_endings() {
    let text = "#EXTM3U\r\n#EXT-X-TARGETDURATION:2\r\n#EXTINF:2,\r\nseg.aac\r\n";
    let m = parse_media_playlist(text.as_bytes(), "http://h/d/x.m3u8".as_bytes()).unwrap();
    assert_eq!(m.target_duration, 2);
    assert_eq!(m.segments.len(), 1);
    assert_eq!(m.segments[0].uri, b("http://h/d/seg.aac"));
    assert_eq!(m.segments[0].duration_ms, 2_000);
}

#[test]
fn keeps_byte_ranges() {
    let text = "#EXTM3U\n\
                #EXT-X-BYTERANGE:300@600\n\
                #EXTINF:1.0,\n\
                a.mp3\n\
                #EXT-X-BYTERANGE:400\n\
                #EXTINF:1.0,\n\
                b.mp3\n\
                #EXTINF:1.0,\n\
                c.mp3\n";
    let m = parse_media_playlist(text.as_bytes(), "http://h/x.m3u8".as_bytes()).unwrap();
    assert_eq!(m.segments[0].byte_range, Some((300, 600)));
    assert_eq!(m.segments[1].byte_range, Some((400, 0)));
    assert_eq!(m.segments[2].byte_range, None);
}

#[test]
fn takes_encryption_from_first_key_tag() {
    let text = "#EXTM3U\n\
                #EXT-X-KEY:METHOD=AES-128,URI=\"https://k/key?a=1,b=2\",KEYFORMAT=\"identity\"\n\
                #EXTINF:1.0,\n\
                a.mp3\n\
                #EXT-X-KEY:METHOD=NONE\n\
                #EXTINF:1.0,\n\
                b.mp3\n";
    let m = parse_media_playlist(text.as_bytes(), "http://h/x.m3u8".as_bytes()).unwrap();
    let e = m.encryption.expect("key tag");
    assert_eq!(e.method, b("AES-128"));
    // The quoted value keeps its embedded comma and loses its quotes.
    assert_eq!(e.uri, Some(b("https://k/key?a=1,b=2")));
    assert_eq!(e.keyformat, Some(b("identity")));
    assert_eq!(e.iv, None);
}

#[test]
fn reads_init_segment_reference() {
    let text = "#EXTM3U\n\
                #EXT-X-MAP:URI=\"init.mp4\"\n\
                #EXTINF:1.0,\n\
                a.m4s\n";
    let m = parse_media_playlist(text.as_bytes(), "http://h/d/x.m3u8".as_bytes()).unwrap();
    assert_eq!(m.init_segment_url, Some(b("http://h/d/init.mp4")));
}

#[test]
fn rejects_master_manifests() {
    let text = "#EXTM3U\n\
                #EXT-X-STREAM-INF:BANDWIDTH=128000\n\
                low/playlist.m3u8\n";
    let r = parse_media_playlist(text.as_bytes(), "http://h/x.m3u8".as_bytes());
    assert_eq!(r.err(), Some(ManifestError::MasterPlaylist));
}

#[test]
fn rejects_non_manifests() {
    let r = parse_media_playlist(b"<html>not audio</html>", "http://h/x.m3u8".as_bytes());
    assert_eq!(r.err(), Some(ManifestError::NotAPlaylist));
    let r = parse_media_playlist(b"", "http://h/x.m3u8".as_bytes());
    assert_eq!(r.err(), Some(ManifestError::NotAPlaylist));
}

#[test]
fn rejects_unreadable_tag_values() {
    let text = "#EXTM3U\n#EXTINF:abc,\na.mp3\n";
    let r = parse_media_playlist(text.as_bytes(), "http://h/x.m3u8".as_bytes());
    assert_eq!(r.err(), Some(ManifestError::Malformed));
    let text = "#EXTM3U\n#EXT-X-TARGETDURATION:4x\n";
    let r = parse_media_playlist(text.as_bytes(), "http://h/x.m3u8".as_bytes());
    assert_eq!(r.err(), Some(ManifestError::Malformed));
}

#[test]
fn drm_rule_matches_spec_examples() {
    // No encryption scheme: benign.
    assert!(!is_commercial_drm(&enc("NONE", None, None)));
    // A DRM key format forces the fallback.
    assert!(is_commercial_drm(&enc(
        "SAMPLE-AES",
        None,
        Some("urn:uuid:edef8ba9-79d6-4ace-a3c8-27dcd51d21ed"),
    )));
    assert!(is_commercial_drm(&enc("NONE", None, Some("com.widevine.alpha"))));
    assert!(is_commercial_drm(&enc("NONE", None, Some("com.microsoft.playready"))));
    assert!(is_commercial_drm(&enc("NONE", None, Some("com.apple.fairplay"))));
    // An AES method with a key URI forces it too.
    assert!(is_commercial_drm(&enc("AES-128", Some("https://k/key"), None)));
    // An AES method without a key URI does not.
    assert!(!is_commercial_drm(&enc("AES-128", None, None)));
    // A benign key format with a method that is not AES does not.
    assert!(!is_commercial_drm(&enc("SAMPLE-AES", None, Some("identity"))));
}

#[test]
fn drm_rule_ignores_iv_and_key_contents() {
    let mut a = enc("AES-128", Some("https://k/1"), Some("identity"));
    let mut b2 = enc("AES-128", Some("https://other/2"), Some("identity"));
    a.iv = Some(b("0xAAAA"));
    b2.iv = None;
    assert_eq!(is_commercial_drm(&a), is_commercial_drm(&b2));
}

const DRM_MANIFEST: &str = "#EXTM3U\n\
    #EXT-X-TARGETDURATION:3\n\
    #EXT-X-KEY:METHOD=AES-128,URI=\"https://k/key\",KEYFORMAT=\"com.widevine.alpha\"\n\
    #EXTINF:3.0,\n\
    seg1.mp3\n";

#[test]
fn protected_stream_runs_resolver_once_then_gives_up() {
    let mut p = AudioPlayer::new();
    let page = b("https://service/track/page");
    let (_, acts) = p.play(None, b("http://h/enc/list.m3u8"), Some(page.clone()));
    assert_eq!(acts, vec![Action::FetchManifest(b("http://h/enc/list.m3u8"))]);
    let (evs, acts) = p.on_manifest(Ok(b(DRM_MANIFEST)));
    assert!(evs.is_empty());
    assert_eq!(acts, vec![Action::RunResolver(page.clone())]);
    let (evs, acts) = p.on_resolver(Some(b("http://other/alt.m3u8")));
    assert!(evs.is_empty());
    assert_eq!(acts, vec![Action::FetchManifest(b("http://other/alt.m3u8"))]);
    // The fallback stream is protected too: one DRM event, no more actions.
    let (evs, acts) = p.on_manifest(Ok(b(DRM_MANIFEST)));
    assert_eq!(
        evs,
        vec![
            AudioEvent::DrmProtected {
                drm_type: b("com.widevine.alpha"),
                track_url: page,
            },
            AudioEvent::Buffering(false),
        ]
    );
    assert!(acts.is_empty());
    let drm_count = evs
        .iter()
        .filter(|e| matches!(e, AudioEvent::DrmProtected { .. }))
        .count();
    assert_eq!(drm_count, 1);
}

#[test]
fn resolver_failure_reports_protected_stream() {
    let mut p = AudioPlayer::new();
    let (_, _) = p.play(
        None,
        b("http://h/enc/list.m3u8"),
        Some(b("https://service/track/page")),
    );
    let (_, acts) = p.on_manifest(Ok(b(DRM_MANIFEST)));
    assert_eq!(acts, vec![Action::RunResolver(b("https://service/track/page"))]);
    let (evs, acts) = p.on_resolver(None);
    assert_eq!(
        evs,
        vec![
            AudioEvent::DrmProtected {
                drm_type: b("com.widevine.alpha"),
                track_url: b("https://service/track/page"),
            },
            AudioEvent::Buffering(false),
        ]
    );
    assert!(acts.is_empty());
}

#[test]
fn protected_stream_without_page_url_gives_up_at_once() {
    let mut p = AudioPlayer::new();
    let (_, _) = p.play(None, b("http://h/enc/list.m3u8"), None);
    let (evs, acts) = p.on_manifest(Ok(b(DRM_MANIFEST)));
    assert_eq!(
        evs,
        vec![
            AudioEvent::DrmProtected {
                drm_type: b("com.widevine.alpha"),
                track_url: b(""),
            },
            AudioEvent::Buffering(false),
        ]
    );
    assert!(acts.is_empty());
}

#[test]
fn preload_of_protected_stream_is_silent() {
    let mut p = AudioPlayer::new();
    let (_, _) = p.preload(4, b("http://h/enc/list.m3u8"), None);
    let (_, acts) = p.on_cache_probe(false);
    assert_eq!(acts, vec![Action::FetchManifest(b("http://h/enc/list.m3u8"))]);
    let (evs, acts) = p.on_manifest(Ok(b(DRM_MANIFEST)));
    assert!(evs.is_empty());
    assert!(acts.is_empty());
}

#[test]
fn segments_assemble_in_manifest_order() {
    let text = "#EXTM3U\n\
                #EXT-X-TARGETDURATION:3\n\
                #EXT-X-MAP:URI=\"init.mp4\"\n\
                #EXTINF:3.0,\n\
                a.m4s\n\
                #EXTINF:3.0,\n\
                b.m4s\n\
                #EXTINF:3.0,\n\
                c.m4s\n";
    let mut p = AudioPlayer::new();
    let (_, acts) = p.play(None, b("http://h/d/list.m3u8"), None);
    assert_eq!(acts, vec![Action::FetchManifest(b("http://h/d/list.m3u8"))]);
    let (evs, acts) = p.on_manifest(Ok(b(text)));
    assert!(evs.is_empty());
    assert_eq!(acts, vec![Action::FetchSegment(b("http://h/d/init.mp4"))]);
    let (_, acts) = p.on_segment(Ok(b("II")));
    assert_eq!(acts, vec![Action::FetchSegment(b("http://h/d/a.m4s"))]);
    let (_, acts) = p.on_segment(Ok(b("AA")));
    assert_eq!(acts, vec![Action::FetchSegment(b("http://h/d/b.m4s"))]);
    let (_, acts) = p.on_segment(Ok(b("BB")));
    assert_eq!(acts, vec![Action::FetchSegment(b("http://h/d/c.m4s"))]);
    // The decoder gets init || seg1 || seg2 || seg3, exactly in order.
    let (evs, acts) = p.on_segment(Ok(b("CC")));
    assert!(evs.is_empty());
    assert_eq!(acts, vec![Action::DecodePlay(b("IIAABBCC"))]);
    let (evs, _) = p.on_decode(None, 9_000);
    assert_eq!(evs, vec![AudioEvent::Buffering(false), AudioEvent::Playing]);
}

#[test]
fn master_manifest_fails_playback_with_an_error() {
    let master = "#EXTM3U\n#EXT-X-STREAM-INF:BANDWIDTH=128000\nlow/playlist.m3u8\n";
    let mut p = AudioPlayer::new();
    let (_, _) = p.play(None, b("http://h/x.m3u8"), None);
    let (evs, acts) = p.on_manifest(Ok(b(master)));
    assert_eq!(
        evs,
        vec![
            AudioEvent::Error(b("master playlists are not supported")),
            AudioEvent::Buffering(false),
        ]
    );
    assert!(acts.is_empty());
}

#[test]
fn manifest_without_segments_fails_playback() {
    let empty = "#EXTM3U\n#EXT-X-TARGETDURATION:3\n";
    let mut p = AudioPlayer::new();
    let (_, _) = p.play(None, b("http://h/x.m3u8"), None);
    let (evs, acts) = p.on_manifest(Ok(b(empty)));
    assert_eq!(
        evs,
        vec![
            AudioEvent::Error(b("no segments in stream manifest")),
            AudioEvent::Buffering(false),
        ]
    );
    assert!(acts.is_empty());
}

#[test]
fn manifest_transport_error_fails_playback() {
    let mut p = AudioPlayer::new();
    let (_, _) = p.play(None, b("http://h/x.m3u8"), None);
    let (evs, acts) = p.on_manifest(Err(b("dns failure")));
    assert_eq!(
        evs,
        vec![
            AudioEvent::Error(b("dns failure")),
            AudioEvent::Buffering(false),
        ]
    );
    assert!(acts.is_empty());
}

#[test]
fn segment_transport_error_fails_playback() {
    let text = "#EXTM3U\n#EXTINF:1.0,\na.mp3\n";
    let mut p = AudioPlayer::new();
    let (_, _) = p.play(None, b("http://h/x.m3u8"), None);
    let (_, _) = p.on_manifest(Ok(b(text)));
    let (evs, acts) = p.on_segment(Err(b("http 403")));
    assert_eq!(
        evs,
        vec![AudioEvent::Error(b("http 403")), AudioEvent::Buffering(false)]
    );
    assert!(acts.is_empty());
}
