use vstd::prelude::*;
use vstd::string::StringExecFns;
use crate::error::Error;
use crate::fps::Fps;
use crate::strutil::{spec_replace, spec_u64_dec, str_replace, u64_to_dec_string, clone_bytes};

verus! {

/// Video resolution in pixels; `0x0` stands for an unknown resolution.
#[derive(Debug, Clone, Copy)]
pub struct Resolution {
    pub width: u64,
    pub height: u64,
}

impl Resolution {
    /// The resolution written as `WIDTHxHEIGHT`.
    pub fn display_string(&self) -> (s: String)
        ensures
            s@ == spec_u64_dec(self.width as int) + "x"@ + spec_u64_dec(self.height as int),
    {
        let w = u64_to_dec_string(self.width);
        let h = u64_to_dec_string(self.height);
        w.concat("x").concat(h.as_str())
    }
}

/// Key and initialization-vector bytes for AES-128-CBC segment decryption.
/// The cipher itself is only constructed at decryption time, so this state is
/// cheap to copy per segment and never shared between segments.
#[derive(Debug)]
pub struct CipherState {
    pub key: Vec<u8>,
    pub iv: Vec<u8>,
}

impl CipherState {
    /// An independent copy of this decryption state.
    pub fn duplicate(&self) -> (r: CipherState)
        ensures
            r.key@ == self.key@,
            r.iv@ == self.iv@,
    {
        CipherState { key: clone_bytes(&self.key), iv: clone_bytes(&self.iv) }
    }
}

/// How a variant addresses its segments: either an HLS sub-manifest to fetch
/// and parse, or DASH template parameters to expand. Exactly one mode holds,
/// and operations of the other mode report an internal error.
#[derive(Debug)]
pub enum VariantDataUrl {
    Hls { url: String },
    MpegDash {
        id: String,
        base: String,
        init: String,
        fragments: String,
        start: u32,
        /// Length of each segment in milliseconds; the number of entries is
        /// also the number of media segments.
        lengths: Vec<u32>,
    },
}

/// Streaming data for one variant: playback metadata plus the addressing
/// mode the segments are derived from.
#[derive(Debug)]
pub struct VariantData {
    pub resolution: Resolution,
    pub bandwidth: u64,
    pub fps: Fps,
    pub codecs: String,
    pub url: VariantDataUrl,
}

/// One fetchable part of a media stream, with the decryption state to apply
/// to its bytes (`None` for plaintext content).
#[derive(Debug)]
pub struct VariantSegment {
    pub key: Option<CipherState>,
    pub url: String,
    pub length_ms: u64,
}

/// URL of the DASH initialization segment.
pub open spec fn spec_dash_init_url(base: Seq<char>, init: Seq<char>, id: Seq<char>) -> Seq<char> {
    base + spec_replace(init, "$RepresentationID$"@, id)
}

/// URL of the DASH media segment numbered `number`.
pub open spec fn spec_dash_media_url(
    base: Seq<char>,
    fragments: Seq<char>,
    id: Seq<char>,
    number: int,
) -> Seq<char> {
    base + spec_replace(
        spec_replace(fragments, "$Number$"@, spec_u64_dec(number)),
        "$RepresentationID$"@,
        id,
    )
}

impl VariantData {
    /// Machine-limit bound on DASH numbering: segment numbers `start + i`
    /// stay within `u64`.
    pub open spec fn wf(self) -> bool {
        match self.url {
            VariantDataUrl::MpegDash { start, lengths, .. } => lengths@.len() + start
                <= u64::MAX,
            VariantDataUrl::Hls { .. } => true,
        }
    }

    /// The master-playlist entry URL, for handing the download to an outside
    /// tool; `None` for a DASH variant.
    pub fn hls_master_url(&self) -> (r: Option<String>)
        ensures
            match self.url {
                VariantDataUrl::Hls { url } => r == Some(url),
                VariantDataUrl::MpegDash { .. } => r is None,
            },
    {
        match &self.url {
            VariantDataUrl::Hls { url } => Some(url.clone()),
            VariantDataUrl::MpegDash { .. } => None,
        }
    }

    /// The media-manifest URL of an HLS variant; asking a DASH variant is an
    /// internal error, never silently coerced.
    pub fn hls_media_url(&self) -> (r: Result<String, Error>)
        ensures
            match self.url {
                VariantDataUrl::Hls { url } => r == Ok::<String, Error>(url),
                VariantDataUrl::MpegDash { .. } => (r matches Err(Error::Internal { message })
                    && message@ == "variant url should be hls"@),
            },
    {
        match &self.url {
            VariantDataUrl::Hls { url } => Ok(url.clone()),
            VariantDataUrl::MpegDash { .. } => Err(
                Error::Internal { message: String::from_str("variant url should be hls") },
            ),
        }
    }

    /// Expand a DASH variant into its ordered segment list: a zero-duration
    /// initialization segment first, then one segment per timeline duration,
    /// numbered from `start` upward, with the `$Number$` and
    /// `$RepresentationID$` placeholders substituted. DASH segments are never
    /// encrypted here. Asking an HLS variant is an internal error.
    #[verifier::loop_isolation(false)]
    pub fn dash_segments(&self) -> (r: Result<Vec<VariantSegment>, Error>)
        requires
            self.wf(),
        ensures
            match self.url {
                VariantDataUrl::Hls { .. } => (r matches Err(Error::Internal { message })
                    && message@ == "variant url should be dash"@),
                VariantDataUrl::MpegDash { id, base, init, fragments, start, lengths } => (r
                    matches Ok(segs) && segs@.len() == lengths@.len() + 1 && segs@[0].key is None
                    && segs@[0].length_ms == 0 && segs@[0].url@ == spec_dash_init_url(
                    base@,
                    init@,
                    id@,
                ) && forall|j: int|
                    1 <= j < segs@.len() ==> (#[trigger] segs@[j]).key is None
                        && segs@[j].length_ms == lengths@[j - 1] && segs@[j].url@
                        == spec_dash_media_url(base@, fragments@, id@, start + j - 1)),
            },
    {
        match &self.url {
            VariantDataUrl::Hls { .. } => Err(
                Error::Internal { message: String::from_str("variant url should be dash") },
            ),
            VariantDataUrl::MpegDash { id, base, init, fragments, start, lengths } => {
                let mut segs: Vec<VariantSegment> = Vec::new();
                let init_path = str_replace(init.as_str(), "$RepresentationID$", id.as_str());
                segs.push(
                    VariantSegment {
                        key: None,
                        url: base.clone().concat(init_path.as_str()),
                        length_ms: 0,
                    },
                );
                let mut i: usize = 0;
                while i < lengths.len()
                    invariant
                        0 <= i <= lengths@.len(),
                        segs@.len() == i + 1,
                        segs@[0].key is None && segs@[0].length_ms == 0 && segs@[0].url@
                            == spec_dash_init_url(base@, init@, id@),
                        forall|j: int|
                            1 <= j < segs@.len() ==> (#[trigger] segs@[j]).key is None
                                && segs@[j].length_ms == lengths@[j - 1] && segs@[j].url@
                                == spec_dash_media_url(base@, fragments@, id@, *start + j - 1),
                    decreases lengths@.len() - i,
                {
                    let number: u64 = (*start as u64) + (i as u64);
                    let num_str = u64_to_dec_string(number);
                    let t1 = str_replace(fragments.as_str(), "$Number$", num_str.as_str());
                    let t2 = str_replace(t1.as_str(), "$RepresentationID$", id.as_str());
                    segs.push(
                        VariantSegment {
                            key: None,
                            url: base.clone().concat(t2.as_str()),
                            length_ms: lengths[i] as u64,
                        },
                    );
                    i += 1;
                }
                Ok(segs)
            },
        }
    }
}

} // verus!
