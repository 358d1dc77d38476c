use streamres::error::Error;
use streamres::stream::{RawStreamDescriptor, Stream, Transport};

fn desc(hls: Option<&str>, dash: Option<&str>) -> RawStreamDescriptor {
    RawStreamDescriptor {
        adaptive_hls: hls.map(String::from),
        adaptive_dash: dash.map(String::from),
    }
}

#[test]
fn missing_locale_reports_not_found() {
    let s = Stream {
        variants: vec![(String::from("en-US"), desc(Some("http://x/master.m3u8"), None))],
    };
    let r = s.hls_stream_url(Some(String::from("fr-FR")));
    match r {
        Err(Error::NotFound { message }) => {
            assert_eq!(message, "no stream with hardsub locale fr-FR");
        }
        other => panic!("expected NotFound, got {:?}", other),
    }
}

#[test]
fn colon_sentinel_resolves_without_locale() {
    let s = Stream {
        variants: vec![(String::from(":"), desc(Some("http://x/master.m3u8"), None))],
    };
    let r = s.hls_stream_url(None);
    assert_eq!(r.unwrap(), "http://x/master.m3u8");
}

#[test]
fn empty_sentinel_takes_precedence_over_colon() {
    let s = Stream {
        variants: vec![
            (String::from(":"), desc(Some("http://colon"), None)),
            (String::from(""), desc(Some("http://empty"), None)),
        ],
    };
    let r = s.hls_stream_url(None);
    assert_eq!(r.unwrap(), "http://empty");
}

#[test]
fn exact_locale_resolves() {
    let s = Stream {
        variants: vec![
            (String::from(""), desc(Some("http://empty"), None)),
            (String::from("de-DE"), desc(Some("http://de"), Some("http://de.mpd"))),
        ],
    };
    assert_eq!(s.hls_stream_url(Some(String::from("de-DE"))).unwrap(), "http://de");
    assert_eq!(s.dash_stream_url(Some(String::from("de-DE"))).unwrap(), "http://de.mpd");
}

#[test]
fn present_locale_without_transport_reports_no_stream() {
    let s = Stream {
        variants: vec![(String::from("en-US"), desc(None, Some("http://x.mpd")))],
    };
    let r = s.hls_stream_url(Some(String::from("en-US")));
    match r {
        Err(Error::NotFound { message }) => assert_eq!(message, "no stream available"),
        other => panic!("expected NotFound, got {:?}", other),
    }
}

#[test]
fn empty_sentinel_without_transport_fails_even_if_colon_populated() {
    let s = Stream {
        variants: vec![
            (String::from(""), desc(None, None)),
            (String::from(":"), desc(Some("http://colon"), None)),
        ],
    };
    let r = s.hls_stream_url(None);
    match r {
        Err(Error::NotFound { message }) => assert_eq!(message, "no stream available"),
        other => panic!("expected NotFound, got {:?}", other),
    }
}

#[test]
fn no_sentinel_reports_internal() {
    let s = Stream {
        variants: vec![(String::from("en-US"), desc(Some("http://x"), None))],
    };
    let r = s.dash_stream_url(None);
    match r {
        Err(Error::Internal { message }) => {
            assert_eq!(message, "could not find supported stream");
        }
        other => panic!("expected Internal, got {:?}", other),
    }
}

#[test]
fn transport_picks_the_right_field() {
    let s = Stream {
        variants: vec![(String::from(""), desc(Some("http://hls"), Some("http://dash")))],
    };
    assert_eq!(
        s.resolve_stream_url(None, Transport::Hls).unwrap(),
        "http://hls"
    );
    assert_eq!(
        s.resolve_stream_url(None, Transport::Dash).unwrap(),
        "http://dash"
    );
}

#[test]
fn hardsub_locales_lists_all_keys() {
    let s = Stream {
        variants: vec![
            (String::from(""), desc(None, None)),
            (String::from("en-US"), desc(None, None)),
        ],
    };
    let locales = s.streaming_hardsub_locales();
    assert_eq!(locales, vec![String::from(""), String::from("en-US")]);
}
