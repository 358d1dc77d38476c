use vstd::prelude::*;
use vstd::string::{StrSliceExecFns, StringExecFns};
use vstd::utf8::encode_utf8;
use crate::error::Error;
use crate::fps::{spec_fps, spec_secs_to_millis, secs_str_to_millis, Fps};
use crate::strutil::clone_bytes;
use crate::variant::{CipherState, Resolution, VariantData, VariantDataUrl, VariantSegment};

verus! {

/// One `EXT-X-KEY` block of a media playlist: the key URI to fetch and the
/// optional explicit initialization vector.
#[derive(Debug)]
pub struct HlsKey {
    pub uri: Option<String>,
    pub iv: Option<String>,
}

/// One entry of a media playlist: the segment URI, its duration as the
/// decimal seconds string the playlist carries, and its key block, if any.
#[derive(Debug)]
pub struct MediaEntry {
    pub uri: String,
    pub duration: String,
    pub key: Option<HlsKey>,
}

/// One variant entry of a master playlist, reduced to the fields this
/// library reads; the frame rate is carried as a decimal string.
#[derive(Debug)]
pub struct HlsVariantEntry {
    pub uri: String,
    pub bandwidth: u64,
    pub resolution: Option<(u64, u64)>,
    pub frame_rate: Option<String>,
    pub codecs: Option<String>,
}

/// What parsing master playlist bytes yields: a function of the bytes
/// alone; `None` stands for malformed input.
pub uninterp spec fn hls_master_entries(bytes: Seq<u8>) -> Option<Seq<HlsVariantEntry>>;

/// What parsing media playlist bytes yields: a function of the bytes alone;
/// `None` stands for malformed input.
pub uninterp spec fn hls_media_entries(bytes: Seq<u8>) -> Option<Seq<MediaEntry>>;

/// Relies on `m3u8_rs::parse_master_playlist_res`: parsing depends on the
/// input bytes alone; each playlist variant is reduced to the fields this
/// library reads (the frame rate reformatted as a decimal string), and the
/// parse error is rendered as a string.
#[verifier::external_body]
fn parse_master(bytes: &Vec<u8>) -> (r: Result<Vec<HlsVariantEntry>, String>)
    ensures
        match r {
            Ok(v) => hls_master_entries(bytes@) == Some(v@),
            Err(_) => hls_master_entries(bytes@) is None,
        },
{
    let pl = match m3u8_rs::parse_master_playlist_res(bytes.as_slice()) {
        Ok(p) => p,
        Err(e) => return Err(e.to_string()),
    };
    Ok(pl.variants.into_iter().map(|v| HlsVariantEntry {
        uri: v.uri,
        bandwidth: v.bandwidth,
        resolution: v.resolution.map(|r| (r.width, r.height)),
        frame_rate: v.frame_rate.map(|f| format!("{}", f)),
        codecs: v.codecs,
    }).collect())
}

/// Relies on `m3u8_rs::parse_media_playlist_res`: parsing depends on the
/// input bytes alone; each playlist segment is reduced to the fields this
/// library reads (the duration reformatted as a decimal string), and the
/// parse error is rendered as a string.
#[verifier::external_body]
fn parse_media(bytes: &Vec<u8>) -> (r: Result<Vec<MediaEntry>, String>)
    ensures
        match r {
            Ok(v) => hls_media_entries(bytes@) == Some(v@),
            Err(_) => hls_media_entries(bytes@) is None,
        },
{
    let pl = match m3u8_rs::parse_media_playlist_res(bytes.as_slice()) {
        Ok(p) => p,
        Err(e) => return Err(e.to_string()),
    };
    Ok(pl.segments.into_iter().map(|s| MediaEntry {
        uri: s.uri,
        duration: format!("{}", s.duration),
        key: s.key.map(|k| HlsKey { uri: k.uri, iv: k.iv }),
    }).collect())
}

/// The variant a master playlist entry yields: missing resolution, frame
/// rate and codecs default to zero or empty rather than failing, and the
/// addressing points at the entry's sub-manifest URL.
pub open spec fn spec_hls_variant_matches(v: VariantData, e: HlsVariantEntry) -> bool {
    &&& v.resolution.width == (match e.resolution {
        Some(p) => p.0,
        None => 0u64,
    })
    &&& v.resolution.height == (match e.resolution {
        Some(p) => p.1,
        None => 0u64,
    })
    &&& v.bandwidth == e.bandwidth
    &&& (v.fps.num, v.fps.den) == spec_fps(
        match e.frame_rate {
            Some(s) => s@,
            None => Seq::empty(),
        },
    )
    &&& v.codecs@ == (match e.codecs {
        Some(c) => c@,
        None => Seq::<char>::empty(),
    })
    &&& (v.url matches VariantDataUrl::Hls { url } && url@ == e.uri@)
}

/// Build variant descriptors from parsed master playlist entries, one per
/// entry, in playlist order.
pub fn variants_from_master_entries(entries: &Vec<HlsVariantEntry>) -> (r: Vec<VariantData>)
    ensures
        r@.len() == entries@.len(),
        forall|i: int|
            0 <= i < entries@.len() ==> spec_hls_variant_matches(#[trigger] r@[i], entries@[i])
                && r@[i].wf(),
{
    let mut out: Vec<VariantData> = Vec::new();
    let mut i: usize = 0;
    while i < entries.len()
        invariant
            0 <= i <= entries@.len(),
            out@.len() == i,
            forall|j: int|
                0 <= j < i ==> spec_hls_variant_matches(#[trigger] out@[j], entries@[j])
                    && out@[j].wf(),
        decreases entries@.len() - i,
    {
        let e = &entries[i];
        let resolution = match &e.resolution {
            Some(p) => Resolution { width: p.0, height: p.1 },
            None => Resolution { width: 0, height: 0 },
        };
        let fps = match &e.frame_rate {
            Some(s) => Fps::parse(s.as_str()),
            None => Fps::zero(),
        };
        let codecs = match &e.codecs {
            Some(c) => c.clone(),
            None => String::new(),
        };
        out.push(
            VariantData {
                resolution,
                bandwidth: e.bandwidth,
                fps,
                codecs,
                url: VariantDataUrl::Hls { url: e.uri.clone() },
            },
        );
        i += 1;
    }
    out
}

/// Parse HLS master playlist bytes into variant descriptors, one per
/// playlist entry; on malformed bytes the decode error carries the raw
/// bytes and the source URL for diagnosis.
pub fn from_hls_master(bytes: &Vec<u8>, url: &str) -> (r: Result<Vec<VariantData>, Error>)
    ensures
        match hls_master_entries(bytes@) {
            Some(es) => (r matches Ok(vs) && vs@.len() == es.len() && forall|i: int|
                0 <= i < es.len() ==> spec_hls_variant_matches(#[trigger] vs@[i], es[i])
                    && vs@[i].wf()),
            None => (r matches Err(Error::Decode { message, content, url: u }) && content@
                == bytes@ && u@ == url@),
        },
{
    match parse_master(bytes) {
        Ok(entries) => Ok(variants_from_master_entries(&entries)),
        Err(msg) => Err(
            Error::Decode {
                message: msg,
                content: clone_bytes(bytes),
                url: String::from_str(url),
            },
        ),
    }
}

/// Parse HLS media playlist bytes into playlist entries; on malformed bytes
/// the decode error carries the raw bytes and the source URL.
pub fn parse_media_entries(bytes: &Vec<u8>, url: &str) -> (r: Result<Vec<MediaEntry>, Error>)
    ensures
        match hls_media_entries(bytes@) {
            Some(es) => (r matches Ok(v) && v@ == es),
            None => (r matches Err(Error::Decode { message, content, url: u }) && content@
                == bytes@ && u@ == url@),
        },
{
    match parse_media(bytes) {
        Ok(entries) => Ok(entries),
        Err(msg) => Err(
            Error::Decode {
                message: msg,
                content: clone_bytes(bytes),
                url: String::from_str(url),
            },
        ),
    }
}

/// Whether an entry carries a key block with a key URI (only those install
/// a new decryption state).
pub open spec fn spec_has_key_uri(e: MediaEntry) -> bool {
    e.key matches Some(k) && k.uri is Some
}

/// How many entries of the playlist ask for a key fetch.
pub open spec fn spec_key_uri_count(entries: Seq<MediaEntry>) -> int
    decreases entries.len(),
{
    if entries.len() == 0 {
        0
    } else {
        spec_key_uri_count(entries.drop_last()) + (if spec_has_key_uri(entries.last()) {
            1int
        } else {
            0int
        })
    }
}

/// The key URIs of the playlist, in playlist order.
pub open spec fn spec_key_uris(entries: Seq<MediaEntry>) -> Seq<Seq<char>>
    decreases entries.len(),
{
    if entries.len() == 0 {
        Seq::empty()
    } else {
        spec_key_uris(entries.drop_last()) + (if spec_has_key_uri(entries.last()) {
            seq![entries.last().key.unwrap().uri.unwrap()@]
        } else {
            Seq::<Seq<char>>::empty()
        })
    }
}

/// There are exactly as many key URIs as entries that ask for a key fetch.
pub proof fn lemma_key_uris_len(entries: Seq<MediaEntry>)
    ensures
        spec_key_uris(entries).len() == spec_key_uri_count(entries),
    decreases entries.len(),
{
    if entries.len() > 0 {
        lemma_key_uris_len(entries.drop_last());
    }
}

/// A prefix never asks for more key fetches than the whole playlist.
pub proof fn lemma_count_prefix_le(entries: Seq<MediaEntry>, i: int)
    requires
        0 <= i <= entries.len(),
    ensures
        spec_key_uri_count(entries.subrange(0, i)) <= spec_key_uri_count(entries),
    decreases entries.len() - i,
{
    if i < entries.len() {
        assert(entries.subrange(0, i + 1).drop_last() =~= entries.subrange(0, i));
        assert(entries.subrange(0, i + 1).last() == entries[i]);
        lemma_count_prefix_le(entries, i + 1);
    } else {
        assert(entries.subrange(0, i) =~= entries);
    }
}

/// The key URIs a media playlist asks to fetch, in playlist order; their
/// bytes feed `hls_segments_from_parts`.
#[verifier::loop_isolation(false)]
pub fn key_uris(entries: &Vec<MediaEntry>) -> (r: Vec<String>)
    ensures
        r@.len() == spec_key_uris(entries@).len(),
        forall|i: int| 0 <= i < r@.len() ==> (#[trigger] r@[i])@ == spec_key_uris(entries@)[i],
{
    let mut out: Vec<String> = Vec::new();
    let mut i: usize = 0;
    while i < entries.len()
        invariant
            0 <= i <= entries@.len(),
            out@.len() == spec_key_uris(entries@.subrange(0, i as int)).len(),
            forall|j: int|
                0 <= j < out@.len() ==> (#[trigger] out@[j])@ == spec_key_uris(
                    entries@.subrange(0, i as int),
                )[j],
        decreases entries@.len() - i,
    {
        proof {
            assert(entries@.subrange(0, i + 1).drop_last() =~= entries@.subrange(0, i as int));
            assert(entries@.subrange(0, i + 1).last() == entries@[i as int]);
        }
        if let Some(k) = &entries[i].key {
            if let Some(u) = &k.uri {
                out.push(u.clone());
            }
        }
        i += 1;
    }
    proof {
        assert(entries@.subrange(0, entries@.len() as int) =~= entries@);
    }
    out
}

#[verifier::loop_isolation(false)]
fn count_key_uris(entries: &Vec<MediaEntry>) -> (n: usize)
    ensures
        n == spec_key_uri_count(entries@),
{
    let mut n: usize = 0;
    let mut i: usize = 0;
    while i < entries.len()
        invariant
            0 <= i <= entries@.len(),
            n <= i,
            n == spec_key_uri_count(entries@.subrange(0, i as int)),
        decreases entries@.len() - i,
    {
        proof {
            assert(entries@.subrange(0, i + 1).drop_last() =~= entries@.subrange(0, i as int));
            assert(entries@.subrange(0, i + 1).last() == entries@[i as int]);
        }
        if let Some(k) = &entries[i].key {
            if k.uri.is_some() {
                n += 1;
            }
        }
        i += 1;
    }
    proof {
        assert(entries@.subrange(0, entries@.len() as int) =~= entries@);
    }
    n
}

/// The initialization vector a key block dictates: the block's own IV bytes
/// when it carries a non-empty one, else the raw key bytes themselves (a
/// deliberate upstream behavior, preserved exactly).
pub open spec fn spec_iv_of(k: HlsKey, key_bytes: Seq<u8>) -> Seq<u8> {
    match k.iv {
        Some(iv) => if iv@.len() > 0 {
            encode_utf8(iv@)
        } else {
            key_bytes
        },
        None => key_bytes,
    }
}

/// Decryption state after the given entries, starting from none: an entry
/// whose key block has a URI installs a new state from that key's fetched
/// bytes, every other entry inherits the previous state.
pub open spec fn spec_state_after(entries: Seq<MediaEntry>, keys: Seq<Seq<u8>>) -> Option<
    (Seq<u8>, Seq<u8>),
>
    decreases entries.len(),
{
    if entries.len() == 0 {
        None
    } else if spec_has_key_uri(entries.last()) {
        let kb = keys[spec_key_uri_count(entries.drop_last())];
        Some((kb, spec_iv_of(entries.last().key.unwrap(), kb)))
    } else {
        spec_state_after(entries.drop_last(), keys)
    }
}

/// Build the ordered segment list of an HLS media playlist from its parsed
/// entries and the fetched bytes of each key URI, in playlist order. The
/// decryption state persists from segment to segment until a key block
/// replaces it; segments before any key block stay plaintext.
#[verifier::loop_isolation(false)]
pub fn hls_segments_from_parts(entries: &Vec<MediaEntry>, keys: &Vec<Vec<u8>>) -> (r: Result<
    Vec<VariantSegment>,
    Error,
>)
    ensures
        keys@.len() == spec_key_uri_count(entries@) ==> (r matches Ok(segs) && {
            let kviews = keys@.map_values(|v: Vec<u8>| v@);
            &&& segs@.len() == entries@.len()
            &&& forall|i: int|
                0 <= i < entries@.len() ==> {
                    let seg = #[trigger] segs@[i];
                    &&& seg.url@ == entries@[i].uri@
                    &&& seg.length_ms == spec_secs_to_millis(entries@[i].duration@)
                    &&& match spec_state_after(entries@.subrange(0, i + 1), kviews) {
                        None => seg.key is None,
                        Some(kv) => seg.key matches Some(cs) && cs.key@ == kv.0 && cs.iv@
                            == kv.1,
                    }
                }
        }),
        keys@.len() != spec_key_uri_count(entries@) ==> (r matches Err(Error::Internal { message })
            && message@ == "hls key count mismatch"@),
{
    let total = count_key_uris(entries);
    if keys.len() != total {
        return Err(Error::Internal { message: String::from_str("hls key count mismatch") });
    }
    let ghost kviews = keys@.map_values(|v: Vec<u8>| v@);
    let mut segs: Vec<VariantSegment> = Vec::new();
    let mut cur: Option<CipherState> = None;
    let mut ki: usize = 0;
    let mut i: usize = 0;
    while i < entries.len()
        invariant
            0 <= i <= entries@.len(),
            segs@.len() == i,
            ki == spec_key_uri_count(entries@.subrange(0, i as int)),
            match spec_state_after(entries@.subrange(0, i as int), kviews) {
                None => cur is None,
                Some(kv) => cur matches Some(cs) && cs.key@ == kv.0 && cs.iv@ == kv.1,
            },
            forall|j: int|
                0 <= j < i ==> {
                    let seg = #[trigger] segs@[j];
                    &&& seg.url@ == entries@[j].uri@
                    &&& seg.length_ms == spec_secs_to_millis(entries@[j].duration@)
                    &&& match spec_state_after(entries@.subrange(0, j + 1), kviews) {
                        None => seg.key is None,
                        Some(kv) => seg.key matches Some(cs) && cs.key@ == kv.0 && cs.iv@
                            == kv.1,
                    }
                },
        decreases entries@.len() - i,
    {
        proof {
            assert(entries@.subrange(0, i + 1).drop_last() =~= entries@.subrange(0, i as int));
            assert(entries@.subrange(0, i + 1).last() == entries@[i as int]);
        }
        let e = &entries[i];
        if let Some(k) = &e.key {
            if k.uri.is_some() {
                proof {
                    lemma_count_prefix_le(entries@, i + 1);
                }
                let kb = &keys[ki];
                let ivb: Vec<u8> = match &k.iv {
                    Some(ivs) => if ivs.as_str().unicode_len() > 0 {
                        ivs.as_str().as_bytes_vec()
                    } else {
                        clone_bytes(kb)
                    },
                    None => clone_bytes(kb),
                };
                cur = Some(CipherState { key: clone_bytes(kb), iv: ivb });
                ki += 1;
            }
        }
        let seg_key: Option<CipherState> = match &cur {
            Some(cs) => Some(cs.duplicate()),
            None => None,
        };
        segs.push(
            VariantSegment {
                key: seg_key,
                url: e.uri.clone(),
                length_ms: secs_str_to_millis(e.duration.as_str()),
            },
        );
        i += 1;
    }
    proof {
        assert(entries@.subrange(0, entries@.len() as int) =~= entries@);
    }
    Ok(segs)
}

} // verus!
