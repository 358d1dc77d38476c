use streamres::dash::{
    dash_streams_from_mpd, dash_variants_from_adaptations, expand_timeline,
    from_mpeg_mpd_representations, MpdAdaptation, MpdRepresentation, MpdTemplate, TimelineEntry,
};
use streamres::error::Error;
use streamres::variant::VariantDataUrl;

fn template() -> MpdTemplate {
    MpdTemplate {
        initialization: Some(String::from("init_$RepresentationID$.mp4")),
        media: Some(String::from("seg_$RepresentationID$_$Number$.mp4")),
        start_number: Some(1),
        timeline: Some(vec![
            TimelineEntry { d: 10, r: Some(2) },
            TimelineEntry { d: 20, r: None },
        ]),
    }
}

fn representation() -> MpdRepresentation {
    MpdRepresentation {
        id: Some(String::from("v1")),
        base_urls: vec![String::from("http://cdn/")],
        width: Some(1920),
        height: Some(1080),
        bandwidth: Some(100000),
        frame_rate: Some(String::from("30000/1001")),
        codecs: Some(String::from("avc1")),
    }
}

#[test]
fn timeline_expands_run_lengths() {
    let t = vec![
        TimelineEntry { d: 10, r: Some(2) },
        TimelineEntry { d: 20, r: Some(0) },
    ];
    assert_eq!(expand_timeline(&t), vec![10, 10, 10, 20]);
}

#[test]
fn timeline_missing_repeat_counts_once() {
    let t = vec![TimelineEntry { d: 7, r: None }];
    assert_eq!(expand_timeline(&t), vec![7]);
}

#[test]
fn timeline_negative_repeat_contributes_nothing() {
    // r = -1 means r + 1 = 0 entries for that pair
    let t = vec![
        TimelineEntry { d: 10, r: Some(-1) },
        TimelineEntry { d: 20, r: Some(1) },
        TimelineEntry { d: 30, r: Some(-5) },
    ];
    assert_eq!(expand_timeline(&t), vec![20, 20]);
}

#[test]
fn representation_expands_to_variant() {
    let vs = from_mpeg_mpd_representations(&template(), &vec![representation()]).unwrap();
    assert_eq!(vs.len(), 1);
    let v = &vs[0];
    assert_eq!(v.resolution.width, 1920);
    assert_eq!(v.resolution.height, 1080);
    assert_eq!(v.bandwidth, 100000);
    assert_eq!(v.fps.num, 30000);
    assert_eq!(v.fps.den, 1001);
    assert_eq!(v.codecs, "avc1");
    match &v.url {
        VariantDataUrl::MpegDash { id, base, init, fragments, start, lengths } => {
            assert_eq!(id, "v1");
            assert_eq!(base, "http://cdn/");
            assert_eq!(init, "init_$RepresentationID$.mp4");
            assert_eq!(fragments, "seg_$RepresentationID$_$Number$.mp4");
            assert_eq!(*start, 1);
            assert_eq!(lengths, &vec![10, 10, 10, 20]);
        }
        other => panic!("expected dash addressing, got {:?}", other),
    }
}

#[test]
fn missing_representation_id_is_fatal() {
    let mut rep = representation();
    rep.id = None;
    let r = from_mpeg_mpd_representations(&template(), &vec![rep]);
    match r {
        Err(Error::Internal { message }) => assert_eq!(message, "dash representation id"),
        other => panic!("expected Internal, got {:?}", other),
    }
}

#[test]
fn missing_timeline_is_fatal() {
    let mut tmpl = template();
    tmpl.timeline = None;
    let r = from_mpeg_mpd_representations(&tmpl, &vec![representation()]);
    match r {
        Err(Error::Internal { message }) => assert_eq!(message, "dash segment timeline"),
        other => panic!("expected Internal, got {:?}", other),
    }
}

#[test]
fn dash_segments_prepend_zero_length_init() {
    let vs = from_mpeg_mpd_representations(&template(), &vec![representation()]).unwrap();
    let segs = vs[0].dash_segments().unwrap();
    assert_eq!(segs.len(), 5);
    assert_eq!(segs[0].url, "http://cdn/init_v1.mp4");
    assert_eq!(segs[0].length_ms, 0);
    assert!(segs[0].key.is_none());
    assert_eq!(segs[1].url, "http://cdn/seg_v1_1.mp4");
    assert_eq!(segs[1].length_ms, 10);
    assert_eq!(segs[2].url, "http://cdn/seg_v1_2.mp4");
    assert_eq!(segs[3].url, "http://cdn/seg_v1_3.mp4");
    assert_eq!(segs[4].url, "http://cdn/seg_v1_4.mp4");
    assert_eq!(segs[4].length_ms, 20);
    for s in &segs {
        assert!(s.key.is_none());
    }
}

#[test]
fn dash_segments_on_hls_variant_is_internal_error() {
    let masters = streamres::hls::variants_from_master_entries(&vec![
        streamres::hls::HlsVariantEntry {
            uri: String::from("http://x/v.m3u8"),
            bandwidth: 1,
            resolution: None,
            frame_rate: None,
            codecs: None,
        },
    ]);
    let r = masters[0].dash_segments();
    match r {
        Err(Error::Internal { message }) => assert_eq!(message, "variant url should be dash"),
        other => panic!("expected Internal, got {:?}", other),
    }
}

#[test]
fn adaptation_with_max_width_is_video_without_is_audio() {
    let video_ad = MpdAdaptation {
        max_width: Some(1920),
        max_height: None,
        segment_template: Some(template()),
        representations: vec![representation()],
    };
    let mut audio_rep = representation();
    audio_rep.id = Some(String::from("a1"));
    audio_rep.width = None;
    audio_rep.height = None;
    let audio_ad = MpdAdaptation {
        max_width: None,
        max_height: None,
        segment_template: Some(template()),
        representations: vec![audio_rep],
    };
    let (video, audio) = dash_variants_from_adaptations(&vec![video_ad, audio_ad]).unwrap();
    assert_eq!(video.len(), 1);
    assert_eq!(audio.len(), 1);
    match &video[0].url {
        VariantDataUrl::MpegDash { id, .. } => assert_eq!(id, "v1"),
        other => panic!("expected dash addressing, got {:?}", other),
    }
    match &audio[0].url {
        VariantDataUrl::MpegDash { id, .. } => assert_eq!(id, "a1"),
        other => panic!("expected dash addressing, got {:?}", other),
    }
}

#[test]
fn missing_segment_template_is_fatal() {
    let ad = MpdAdaptation {
        max_width: None,
        max_height: None,
        segment_template: None,
        representations: vec![representation()],
    };
    let r = dash_variants_from_adaptations(&vec![ad]);
    match r {
        Err(Error::Internal { message }) => assert_eq!(message, "dash segment template"),
        other => panic!("expected Internal, got {:?}", other),
    }
}

#[test]
fn mpd_document_parses_and_classifies() {
    let mut xml = String::new();
    xml.push_str("<?xml version=\"1.0\" encoding=\"utf-8\"?>\n");
    xml.push_str("<MPD xmlns=\"urn:mpeg:dash:schema:mpd:2011\" type=\"static\">\n");
    xml.push_str("<Period>\n");
    xml.push_str("<AdaptationSet maxWidth=\"1920\" maxHeight=\"1080\">\n");
    xml.push_str("<SegmentTemplate initialization=\"init_$RepresentationID$.mp4\" ");
    xml.push_str("media=\"seg_$RepresentationID$_$Number$.mp4\" startNumber=\"1\">\n");
    xml.push_str("<SegmentTimeline>\n");
    xml.push_str("<S d=\"10\" r=\"2\"/>\n");
    xml.push_str("<S d=\"20\"/>\n");
    xml.push_str("</SegmentTimeline>\n");
    xml.push_str("</SegmentTemplate>\n");
    xml.push_str("<Representation id=\"v1\" bandwidth=\"100000\" width=\"1920\" ");
    xml.push_str("height=\"1080\" frameRate=\"30000/1001\" codecs=\"avc1\">\n");
    xml.push_str("<BaseURL>http://cdn/</BaseURL>\n");
    xml.push_str("</Representation>\n");
    xml.push_str("</AdaptationSet>\n");
    xml.push_str("<AdaptationSet>\n");
    xml.push_str("<SegmentTemplate initialization=\"ainit_$RepresentationID$.mp4\" ");
    xml.push_str("media=\"aseg_$RepresentationID$_$Number$.mp4\" startNumber=\"1\">\n");
    xml.push_str("<SegmentTimeline>\n");
    xml.push_str("<S d=\"10\"/>\n");
    xml.push_str("</SegmentTimeline>\n");
    xml.push_str("</SegmentTemplate>\n");
    xml.push_str("<Representation id=\"a1\" bandwidth=\"64000\" codecs=\"mp4a\">\n");
    xml.push_str("<BaseURL>http://cdn/a/</BaseURL>\n");
    xml.push_str("</Representation>\n");
    xml.push_str("</AdaptationSet>\n");
    xml.push_str("</Period>\n");
    xml.push_str("</MPD>\n");
    let bytes: Vec<u8> = xml.into_bytes();
    let (video, audio) = dash_streams_from_mpd(&bytes, "http://cdn/manifest.mpd").unwrap();
    assert_eq!(video.len(), 1);
    assert_eq!(audio.len(), 1);
    assert_eq!(video[0].resolution.width, 1920);
    assert_eq!(video[0].fps.num, 30000);
    assert_eq!(video[0].fps.den, 1001);
    let segs = video[0].dash_segments().unwrap();
    assert_eq!(segs.len(), 5);
    assert_eq!(segs[0].url, "http://cdn/init_v1.mp4");
    assert_eq!(segs[4].url, "http://cdn/seg_v1_4.mp4");
    let asegs = audio[0].dash_segments().unwrap();
    assert_eq!(asegs.len(), 2);
    assert_eq!(asegs[0].url, "http://cdn/a/ainit_a1.mp4");
    assert_eq!(asegs[1].url, "http://cdn/a/aseg_a1_1.mp4");
}

#[test]
fn oversized_duration_component_is_rejected_before_parsing() {
    let mut xml = String::new();
    xml.push_str("<?xml version=\"1.0\" encoding=\"utf-8\"?>\n");
    xml.push_str("<MPD xmlns=\"urn:mpeg:dash:schema:mpd:2011\" ");
    xml.push_str("mediaPresentationDuration=\"PT18446744073709551615H\">\n");
    xml.push_str("<Period></Period>\n");
    xml.push_str("</MPD>\n");
    let bytes: Vec<u8> = xml.into_bytes();
    let r = dash_streams_from_mpd(&bytes, "http://cdn/manifest.mpd");
    match r {
        Err(Error::Decode { message, content, url }) => {
            assert_eq!(message, "manifest rejected: oversized duration component");
            assert_eq!(content, bytes);
            assert_eq!(url, "http://cdn/manifest.mpd");
        }
        other => panic!("expected Decode, got {:?}", other),
    }
}

#[test]
fn ordinary_duration_attributes_pass_the_screen() {
    let mut xml = String::new();
    xml.push_str("<?xml version=\"1.0\" encoding=\"utf-8\"?>\n");
    xml.push_str("<MPD xmlns=\"urn:mpeg:dash:schema:mpd:2011\" ");
    xml.push_str("mediaPresentationDuration=\"PT1H30M15.500S\" ");
    xml.push_str("minBufferTime=\"PT2S\">\n");
    xml.push_str("<Period></Period>\n");
    xml.push_str("</MPD>\n");
    let bytes: Vec<u8> = xml.into_bytes();
    // parses (an empty period has no adaptation sets, so both lists are empty)
    let (video, audio) = dash_streams_from_mpd(&bytes, "http://cdn/manifest.mpd").unwrap();
    assert!(video.is_empty());
    assert!(audio.is_empty());
}

#[test]
fn malformed_mpd_reports_decode_error_with_bytes() {
    let bytes: Vec<u8> = b"this is not xml".to_vec();
    let r = dash_streams_from_mpd(&bytes, "http://cdn/manifest.mpd");
    match r {
        Err(Error::Decode { content, url, .. }) => {
            assert_eq!(content, bytes);
            assert_eq!(url, "http://cdn/manifest.mpd");
        }
        other => panic!("expected Decode, got {:?}", other),
    }
}
