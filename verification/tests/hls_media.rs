use streamres::error::Error;
use streamres::hls::{
    from_hls_master, hls_segments_from_parts, key_uris, parse_media_entries, HlsKey, MediaEntry,
};
use streamres::variant::VariantDataUrl;

fn entry(uri: &str, duration: &str, key: Option<HlsKey>) -> MediaEntry {
    MediaEntry {
        uri: String::from(uri),
        duration: String::from(duration),
        key,
    }
}

fn key_block(uri: &str, iv: Option<&str>) -> HlsKey {
    HlsKey {
        uri: Some(String::from(uri)),
        iv: iv.map(String::from),
    }
}

#[test]
fn master_playlist_parses_to_variants() {
    let mut m3u8 = String::new();
    m3u8.push_str("#EXTM3U\n");
    m3u8.push_str("#EXT-X-STREAM-INF:BANDWIDTH=1280000,RESOLUTION=1920x1080,");
    m3u8.push_str("FRAME-RATE=23.976,CODECS=\"avc1.4d401f\"\n");
    m3u8.push_str("http://example.com/video1080.m3u8\n");
    m3u8.push_str("#EXT-X-STREAM-INF:BANDWIDTH=640000\n");
    m3u8.push_str("http://example.com/video480.m3u8\n");
    let bytes: Vec<u8> = m3u8.into_bytes();
    let vs = from_hls_master(&bytes, "http://example.com/master.m3u8").unwrap();
    assert_eq!(vs.len(), 2);
    assert_eq!(vs[0].bandwidth, 1280000);
    assert_eq!(vs[0].resolution.width, 1920);
    assert_eq!(vs[0].resolution.height, 1080);
    assert_eq!(vs[0].fps.num, 23976);
    assert_eq!(vs[0].fps.den, 1000);
    assert_eq!(vs[0].codecs, "avc1.4d401f");
    match &vs[0].url {
        VariantDataUrl::Hls { url } => assert_eq!(url, "http://example.com/video1080.m3u8"),
        other => panic!("expected hls addressing, got {:?}", other),
    }
    assert_eq!(vs[1].bandwidth, 640000);
    assert_eq!(vs[1].resolution.width, 0);
    assert_eq!(vs[1].resolution.height, 0);
    assert_eq!(vs[1].fps.num, 0);
    assert_eq!(vs[1].codecs, "");
    assert_eq!(vs[1].hls_master_url().unwrap(), "http://example.com/video480.m3u8");
    assert_eq!(vs[1].hls_media_url().unwrap(), "http://example.com/video480.m3u8");
}

#[test]
fn malformed_master_reports_decode_error_with_bytes() {
    let bytes: Vec<u8> = b"not a playlist".to_vec();
    let r = from_hls_master(&bytes, "http://example.com/master.m3u8");
    match r {
        Err(Error::Decode { content, url, .. }) => {
            assert_eq!(content, bytes);
            assert_eq!(url, "http://example.com/master.m3u8");
        }
        other => panic!("expected Decode, got {:?}", other),
    }
}

#[test]
fn media_playlist_parses_segments_and_keys() {
    let mut m3u8 = String::new();
    m3u8.push_str("#EXTM3U\n");
    m3u8.push_str("#EXT-X-VERSION:3\n");
    m3u8.push_str("#EXT-X-TARGETDURATION:10\n");
    m3u8.push_str("#EXT-X-MEDIA-SEQUENCE:0\n");
    m3u8.push_str("#EXTINF:9.9843,\n");
    m3u8.push_str("seg0.ts\n");
    m3u8.push_str("#EXT-X-KEY:METHOD=AES-128,URI=\"https://keys/k1\",IV=0xabcdef\n");
    m3u8.push_str("#EXTINF:10.0,\n");
    m3u8.push_str("seg1.ts\n");
    m3u8.push_str("#EXTINF:8.5,\n");
    m3u8.push_str("seg2.ts\n");
    m3u8.push_str("#EXT-X-ENDLIST\n");
    let bytes: Vec<u8> = m3u8.into_bytes();
    let entries = parse_media_entries(&bytes, "http://example.com/media.m3u8").unwrap();
    assert_eq!(entries.len(), 3);
    assert_eq!(entries[0].uri, "seg0.ts");
    assert!(entries[0].key.is_none());
    let k = entries[1].key.as_ref().unwrap();
    assert_eq!(k.uri.as_ref().unwrap(), "https://keys/k1");
    assert_eq!(k.iv.as_ref().unwrap(), "0xabcdef");
    assert!(entries[2].key.is_none());
    let uris = key_uris(&entries);
    assert_eq!(uris, vec![String::from("https://keys/k1")]);
    let segs = hls_segments_from_parts(&entries, &vec![b"0123456789abcdef".to_vec()]).unwrap();
    assert_eq!(segs.len(), 3);
    assert_eq!(segs[0].length_ms, 9984);
    assert_eq!(segs[1].length_ms, 10000);
    assert_eq!(segs[2].length_ms, 8500);
    assert!(segs[0].key.is_none());
    let s1 = segs[1].key.as_ref().unwrap();
    assert_eq!(s1.key, b"0123456789abcdef".to_vec());
    assert_eq!(s1.iv, b"0xabcdef".to_vec());
    let s2 = segs[2].key.as_ref().unwrap();
    assert_eq!(s2.key, b"0123456789abcdef".to_vec());
}

#[test]
fn key_state_persists_until_replaced() {
    let entries = vec![
        entry("s0.ts", "10", None),
        entry("s1.ts", "10", Some(key_block("https://keys/a", None))),
        entry("s2.ts", "10", None),
        entry("s3.ts", "10", Some(key_block("https://keys/b", None))),
    ];
    let key_a = b"aaaaaaaaaaaaaaaa".to_vec();
    let key_b = b"bbbbbbbbbbbbbbbb".to_vec();
    let segs = hls_segments_from_parts(&entries, &vec![key_a.clone(), key_b.clone()]).unwrap();
    assert_eq!(segs.len(), 4);
    assert!(segs[0].key.is_none());
    assert_eq!(segs[1].key.as_ref().unwrap().key, key_a);
    assert_eq!(segs[2].key.as_ref().unwrap().key, key_a);
    assert_eq!(segs[3].key.as_ref().unwrap().key, key_b);
}

#[test]
fn iv_falls_back_to_raw_key_bytes() {
    let entries = vec![
        entry("s0.ts", "4", Some(key_block("https://keys/a", None))),
        entry("s1.ts", "4", Some(key_block("https://keys/b", Some("")))),
        entry("s2.ts", "4", Some(key_block("https://keys/c", Some("0x42")))),
    ];
    let ka = b"aaaaaaaaaaaaaaaa".to_vec();
    let kb = b"bbbbbbbbbbbbbbbb".to_vec();
    let kc = b"cccccccccccccccc".to_vec();
    let segs =
        hls_segments_from_parts(&entries, &vec![ka.clone(), kb.clone(), kc.clone()]).unwrap();
    // no IV given: the raw key bytes serve as the IV
    assert_eq!(segs[0].key.as_ref().unwrap().iv, ka);
    // empty IV given: same fallback
    assert_eq!(segs[1].key.as_ref().unwrap().iv, kb);
    // non-empty IV given: used verbatim, as its ASCII bytes
    assert_eq!(segs[2].key.as_ref().unwrap().iv, b"0x42".to_vec());
}

#[test]
fn key_without_uri_does_not_replace_state() {
    let entries = vec![
        entry("s0.ts", "4", Some(key_block("https://keys/a", None))),
        entry(
            "s1.ts",
            "4",
            Some(HlsKey { uri: None, iv: Some(String::from("0x1")) }),
        ),
    ];
    let ka = b"aaaaaaaaaaaaaaaa".to_vec();
    let segs = hls_segments_from_parts(&entries, &vec![ka.clone()]).unwrap();
    assert_eq!(segs[1].key.as_ref().unwrap().key, ka);
    assert_eq!(segs[1].key.as_ref().unwrap().iv, ka);
}

#[test]
fn key_count_mismatch_is_internal_error() {
    let entries = vec![entry("s0.ts", "4", Some(key_block("https://keys/a", None)))];
    let r = hls_segments_from_parts(&entries, &vec![]);
    match r {
        Err(Error::Internal { message }) => assert_eq!(message, "hls key count mismatch"),
        other => panic!("expected Internal, got {:?}", other),
    }
}
