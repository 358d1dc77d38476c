use vstd::prelude::*;
use vstd::string::StringExecFns;
use crate::error::Error;
use crate::fps::{spec_fps, Fps};
use crate::strutil::clone_bytes;
use crate::variant::{Resolution, VariantData, VariantDataUrl};

verus! {

/// One run-length pair of a DASH segment timeline: a duration in
/// milliseconds and an optional repeat count.
#[derive(Debug, Clone, Copy)]
pub struct TimelineEntry {
    pub d: u64,
    pub r: Option<i64>,
}

/// The fields this library reads from a DASH segment template.
#[derive(Debug)]
pub struct MpdTemplate {
    pub initialization: Option<String>,
    pub media: Option<String>,
    pub start_number: Option<u64>,
    pub timeline: Option<Vec<TimelineEntry>>,
}

/// The fields this library reads from a DASH representation.
#[derive(Debug)]
pub struct MpdRepresentation {
    pub id: Option<String>,
    pub base_urls: Vec<String>,
    pub width: Option<u64>,
    pub height: Option<u64>,
    pub bandwidth: Option<u64>,
    pub frame_rate: Option<String>,
    pub codecs: Option<String>,
}

/// One adaptation set: classification data, the shared segment template,
/// and the representations it groups.
#[derive(Debug)]
pub struct MpdAdaptation {
    pub max_width: Option<u64>,
    pub max_height: Option<u64>,
    pub segment_template: Option<MpdTemplate>,
    pub representations: Vec<MpdRepresentation>,
}

/// How many segments one timeline pair contributes: `repeat + 1` (a missing
/// repeat counts as zero), floored at zero, so a negative repeat contributes
/// no segment at all.
pub open spec fn spec_rep_count(e: TimelineEntry) -> int {
    match e.r {
        Some(x) => if x >= 0 {
            x + 1
        } else {
            0
        },
        None => 1,
    }
}

/// Flat per-segment millisecond durations of a run-length-encoded timeline,
/// in timeline order.
pub open spec fn spec_expand_timeline(t: Seq<TimelineEntry>) -> Seq<u32>
    decreases t.len(),
{
    if t.len() == 0 {
        Seq::empty()
    } else {
        Seq::new(spec_rep_count(t[0]) as nat, |k: int| t[0].d as u32) + spec_expand_timeline(
            t.drop_first(),
        )
    }
}

/// Total number of segments a timeline describes.
pub open spec fn spec_timeline_total(t: Seq<TimelineEntry>) -> int
    decreases t.len(),
{
    if t.len() == 0 {
        0
    } else {
        spec_rep_count(t[0]) + spec_timeline_total(t.drop_first())
    }
}

/// The expanded timeline has exactly the summed length: each pair `(d, r)`
/// contributes `r + 1` entries.
pub proof fn lemma_expand_timeline_len(t: Seq<TimelineEntry>)
    ensures
        spec_expand_timeline(t).len() == spec_timeline_total(t),
    decreases t.len(),
{
    if t.len() > 0 {
        lemma_expand_timeline_len(t.drop_first());
    }
}

/// Expand a run-length-encoded segment timeline into flat per-segment
/// durations, exactly as `spec_expand_timeline` lays it out.
#[verifier::loop_isolation(false)]
pub fn expand_timeline(entries: &Vec<TimelineEntry>) -> (r: Vec<u32>)
    ensures
        r@ == spec_expand_timeline(entries@),
{
    let mut out: Vec<u32> = Vec::new();
    let mut i: usize = 0;
    proof {
        assert(entries@.skip(0) =~= entries@);
    }
    while i < entries.len()
        invariant
            0 <= i <= entries@.len(),
            out@ + spec_expand_timeline(entries@.skip(i as int)) == spec_expand_timeline(entries@),
        decreases entries@.len() - i,
    {
        let e = entries[i];
        let count: u64 = match e.r {
            Some(x) => if x >= 0 {
                (x as u64) + 1
            } else {
                0
            },
            None => 1,
        };
        let d32: u32 = #[verifier::truncate] (e.d as u32);
        let ghost prev = out@;
        let mut j: u64 = 0;
        while j < count
            invariant
                0 <= j <= count,
                count == spec_rep_count(entries@[i as int]),
                i < entries@.len(),
                out@ == prev + Seq::new(j as nat, |k: int| (entries@[i as int].d as u32)),
            decreases count - j,
        {
            out.push(d32);
            proof {
                assert(out@ =~= prev + Seq::new((j + 1) as nat, |k: int| (entries@[i as int].d as u32)));
            }
            j += 1;
        }
        proof {
            assert(entries@.skip(i as int)[0] == entries@[i as int]);
            assert(entries@.skip(i as int).drop_first() =~= entries@.skip(i as int + 1));
            assert(Seq::new(spec_rep_count(entries@[i as int]) as nat, |k: int| entries@[i as int].d as u32)
                =~= Seq::new(count as nat, |k: int| (entries@[i as int].d as u32)));
            assert(out@ + spec_expand_timeline(entries@.skip(i as int + 1)) =~= prev
                + spec_expand_timeline(entries@.skip(i as int)));
        }
        i += 1;
    }
    proof {
        assert(entries@.skip(entries@.len() as int) =~= Seq::<TimelineEntry>::empty());
        assert(out@ + spec_expand_timeline(Seq::<TimelineEntry>::empty()) =~= out@);
    }
    out
}

/// `x`, or zero when absent.
pub open spec fn spec_or_zero(x: Option<u64>) -> u64 {
    match x {
        Some(v) => v,
        None => 0u64,
    }
}

/// The string's characters, or the empty sequence when absent.
pub open spec fn spec_str_or_empty(s: Option<String>) -> Seq<char> {
    match s {
        Some(v) => v@,
        None => Seq::empty(),
    }
}

/// The first structural defect that makes a representation unusable under
/// this template, as its error message; `None` when the representation can
/// be expanded. Absence of addressing data is fatal, never defaulted.
pub open spec fn spec_rep_error(tmpl: MpdTemplate, rep: MpdRepresentation) -> Option<Seq<char>> {
    if rep.id is None {
        Some("dash representation id"@)
    } else if rep.base_urls@.len() == 0 {
        Some("dash base url"@)
    } else if tmpl.initialization is None {
        Some("dash initialization url"@)
    } else if tmpl.media is None {
        Some("dash media url"@)
    } else if tmpl.start_number is None {
        Some("dash start number"@)
    } else if tmpl.timeline is None {
        Some("dash segment timeline"@)
    } else if spec_timeline_total(tmpl.timeline.unwrap()@) + ((tmpl.start_number.unwrap()
        as u32) as int) > u64::MAX {
        Some("dash segment timeline too long"@)
    } else {
        None
    }
}

/// The variant a representation expands to: metadata defaulted to zero or
/// empty when absent, and DASH addressing taken verbatim from the template
/// and representation, with the timeline flattened.
pub open spec fn spec_variant_matches_rep(
    v: VariantData,
    tmpl: MpdTemplate,
    rep: MpdRepresentation,
) -> bool {
    &&& v.resolution.width == spec_or_zero(rep.width)
    &&& v.resolution.height == spec_or_zero(rep.height)
    &&& v.bandwidth == spec_or_zero(rep.bandwidth)
    &&& (v.fps.num, v.fps.den) == spec_fps(spec_str_or_empty(rep.frame_rate))
    &&& v.codecs@ == spec_str_or_empty(rep.codecs)
    &&& (v.url matches VariantDataUrl::MpegDash { id, base, init, fragments, start, lengths }
        && id@ == rep.id.unwrap()@ && base@ == rep.base_urls@[0]@ && init@
        == tmpl.initialization.unwrap()@ && fragments@ == tmpl.media.unwrap()@ && start
        == tmpl.start_number.unwrap() as u32 && lengths@ == spec_expand_timeline(
        tmpl.timeline.unwrap()@,
    ))
}

fn internal_error(m: &str) -> (e: Error)
    ensures
        e matches Error::Internal { message } && message@ == m@,
{
    Error::Internal { message: String::from_str(m) }
}

/// Expand one representation under its adaptation set's segment template
/// into a variant, or report the first missing structural field.
pub fn variant_from_representation(tmpl: &MpdTemplate, rep: &MpdRepresentation) -> (r: Result<
    VariantData,
    Error,
>)
    ensures
        match spec_rep_error(*tmpl, *rep) {
            Some(m) => (r matches Err(Error::Internal { message }) && message@ == m),
            None => (r matches Ok(v) && spec_variant_matches_rep(v, *tmpl, *rep) && v.wf()),
        },
{
    let id = match &rep.id {
        Some(s) => s.clone(),
        None => {
            return Err(internal_error("dash representation id"));
        },
    };
    if rep.base_urls.len() == 0 {
        return Err(internal_error("dash base url"));
    }
    let base = rep.base_urls[0].clone();
    let init = match &tmpl.initialization {
        Some(s) => s.clone(),
        None => {
            return Err(internal_error("dash initialization url"));
        },
    };
    let media = match &tmpl.media {
        Some(s) => s.clone(),
        None => {
            return Err(internal_error("dash media url"));
        },
    };
    let start64: u64 = match &tmpl.start_number {
        Some(v) => *v,
        None => {
            return Err(internal_error("dash start number"));
        },
    };
    let timeline = match &tmpl.timeline {
        Some(t) => t,
        None => {
            return Err(internal_error("dash segment timeline"));
        },
    };
    let start: u32 = #[verifier::truncate] (start64 as u32);
    let lengths = expand_timeline(timeline);
    proof {
        lemma_expand_timeline_len(timeline@);
    }
    if lengths.len() as u64 > u64::MAX - (start as u64) {
        return Err(internal_error("dash segment timeline too long"));
    }
    let fps = match &rep.frame_rate {
        Some(s) => Fps::parse(s.as_str()),
        None => Fps::zero(),
    };
    let codecs = match &rep.codecs {
        Some(s) => s.clone(),
        None => String::new(),
    };
    let width: u64 = match &rep.width {
        Some(w) => *w,
        None => 0,
    };
    let height: u64 = match &rep.height {
        Some(h) => *h,
        None => 0,
    };
    let bandwidth: u64 = match &rep.bandwidth {
        Some(b) => *b,
        None => 0,
    };
    Ok(
        VariantData {
            resolution: Resolution { width, height },
            bandwidth,
            fps,
            codecs,
            url: VariantDataUrl::MpegDash { id, base, init, fragments: media, start, lengths },
        },
    )
}

/// The first structural error among a template's representations, scanned in
/// order.
pub open spec fn spec_first_rep_error(tmpl: MpdTemplate, reps: Seq<MpdRepresentation>) -> Option<
    Seq<char>,
>
    decreases reps.len(),
{
    if reps.len() == 0 {
        None
    } else {
        match spec_rep_error(tmpl, reps[0]) {
            Some(m) => Some(m),
            None => spec_first_rep_error(tmpl, reps.drop_first()),
        }
    }
}

/// Expand every representation of one adaptation set, in order; the first
/// structurally broken representation makes the whole manifest unusable.
#[verifier::loop_isolation(false)]
pub fn from_mpeg_mpd_representations(tmpl: &MpdTemplate, reps: &Vec<MpdRepresentation>) -> (r:
    Result<Vec<VariantData>, Error>)
    ensures
        match spec_first_rep_error(*tmpl, reps@) {
            Some(m) => (r matches Err(Error::Internal { message }) && message@ == m),
            None => (r matches Ok(vs) && vs@.len() == reps@.len() && forall|i: int|
                0 <= i < reps@.len() ==> spec_variant_matches_rep(
                    #[trigger] vs@[i],
                    *tmpl,
                    reps@[i],
                ) && vs@[i].wf()),
        },
{
    let mut out: Vec<VariantData> = Vec::new();
    let mut i: usize = 0;
    proof {
        assert(reps@.skip(0) =~= reps@);
    }
    while i < reps.len()
        invariant
            0 <= i <= reps@.len(),
            out@.len() == i,
            forall|j: int|
                0 <= j < i ==> spec_variant_matches_rep(#[trigger] out@[j], *tmpl, reps@[j])
                    && out@[j].wf(),
            spec_first_rep_error(*tmpl, reps@) == spec_first_rep_error(
                *tmpl,
                reps@.skip(i as int),
            ),
        decreases reps@.len() - i,
    {
        proof {
            assert(reps@.skip(i as int)[0] == reps@[i as int]);
            assert(reps@.skip(i as int).drop_first() =~= reps@.skip(i as int + 1));
        }
        match variant_from_representation(tmpl, &reps[i]) {
            Ok(v) => out.push(v),
            Err(e) => {
                return Err(e);
            },
        }
        i += 1;
    }
    proof {
        assert(reps@.skip(reps@.len() as int) =~= Seq::<MpdRepresentation>::empty());
    }
    Ok(out)
}

/// An adaptation set is video when it declares a maximum width or height,
/// else audio.
pub open spec fn spec_is_video(a: MpdAdaptation) -> bool {
    a.max_width is Some || a.max_height is Some
}

/// All (template, representation) pairs of the adaptation sets of one kind
/// (video or audio), in manifest order.
pub open spec fn spec_transport_pairs(ads: Seq<MpdAdaptation>, video: bool) -> Seq<
    (MpdTemplate, MpdRepresentation),
>
    decreases ads.len(),
{
    if ads.len() == 0 {
        Seq::empty()
    } else {
        (if spec_is_video(ads[0]) == video && ads[0].segment_template is Some {
            ads[0].representations@.map_values(
                |r: MpdRepresentation| (ads[0].segment_template.unwrap(), r),
            )
        } else {
            Seq::empty()
        }) + spec_transport_pairs(ads.drop_first(), video)
    }
}

/// The first structural error of a whole manifest: a missing segment
/// template on an adaptation set, or the first broken representation, in
/// manifest order.
pub open spec fn spec_dash_error(ads: Seq<MpdAdaptation>) -> Option<Seq<char>>
    decreases ads.len(),
{
    if ads.len() == 0 {
        None
    } else if ads[0].segment_template is None {
        Some("dash segment template"@)
    } else {
        match spec_first_rep_error(ads[0].segment_template.unwrap(), ads[0].representations@) {
            Some(m) => Some(m),
            None => spec_dash_error(ads.drop_first()),
        }
    }
}

/// Classify every adaptation set as video or audio and expand all its
/// representations, preserving manifest order within each class.
#[verifier::loop_isolation(false)]
pub fn dash_variants_from_adaptations(ads: &Vec<MpdAdaptation>) -> (r: Result<
    (Vec<VariantData>, Vec<VariantData>),
    Error,
>)
    ensures
        match spec_dash_error(ads@) {
            Some(m) => (r matches Err(Error::Internal { message }) && message@ == m),
            None => (r matches Ok(p) && {
                let vp = spec_transport_pairs(ads@, true);
                let ap = spec_transport_pairs(ads@, false);
                &&& p.0@.len() == vp.len()
                &&& p.1@.len() == ap.len()
                &&& (forall|i: int|
                    0 <= i < vp.len() ==> spec_variant_matches_rep(
                        #[trigger] p.0@[i],
                        vp[i].0,
                        vp[i].1,
                    ) && p.0@[i].wf())
                &&& (forall|i: int|
                    0 <= i < ap.len() ==> spec_variant_matches_rep(
                        #[trigger] p.1@[i],
                        ap[i].0,
                        ap[i].1,
                    ) && p.1@[i].wf())
            }),
        },
{
    let mut video: Vec<VariantData> = Vec::new();
    let mut audio: Vec<VariantData> = Vec::new();
    let ghost mut gvp: Seq<(MpdTemplate, MpdRepresentation)> = Seq::empty();
    let ghost mut gap: Seq<(MpdTemplate, MpdRepresentation)> = Seq::empty();
    let mut i: usize = 0;
    proof {
        assert(ads@.skip(0) =~= ads@);
        assert(gvp + spec_transport_pairs(ads@, true) =~= spec_transport_pairs(ads@, true));
        assert(gap + spec_transport_pairs(ads@, false) =~= spec_transport_pairs(ads@, false));
    }
    while i < ads.len()
        invariant
            0 <= i <= ads@.len(),
            spec_dash_error(ads@) == spec_dash_error(ads@.skip(i as int)),
            spec_transport_pairs(ads@, true) == gvp + spec_transport_pairs(
                ads@.skip(i as int),
                true,
            ),
            spec_transport_pairs(ads@, false) == gap + spec_transport_pairs(
                ads@.skip(i as int),
                false,
            ),
            video@.len() == gvp.len(),
            audio@.len() == gap.len(),
            forall|j: int|
                0 <= j < gvp.len() ==> spec_variant_matches_rep(
                    #[trigger] video@[j],
                    gvp[j].0,
                    gvp[j].1,
                ) && video@[j].wf(),
            forall|j: int|
                0 <= j < gap.len() ==> spec_variant_matches_rep(
                    #[trigger] audio@[j],
                    gap[j].0,
                    gap[j].1,
                ) && audio@[j].wf(),
        decreases ads@.len() - i,
    {
        proof {
            assert(ads@.skip(i as int)[0] == ads@[i as int]);
            assert(ads@.skip(i as int).drop_first() =~= ads@.skip(i as int + 1));
        }
        let a = &ads[i];
        let tmpl = match &a.segment_template {
            Some(t) => t,
            None => {
                return Err(internal_error("dash segment template"));
            },
        };
        let mut vs = match from_mpeg_mpd_representations(tmpl, &a.representations) {
            Ok(vs) => vs,
            Err(e) => {
                return Err(e);
            },
        };
        let ghost head = ads@[i as int].representations@.map_values(
            |r: MpdRepresentation| (ads@[i as int].segment_template.unwrap(), r),
        );
        let is_video = a.max_width.is_some() || a.max_height.is_some();
        if is_video {
            proof {
                gvp = gvp + head;
            }
            video.append(&mut vs);
        } else {
            proof {
                gap = gap + head;
            }
            audio.append(&mut vs);
        }
        i += 1;
    }
    proof {
        assert(ads@.skip(ads@.len() as int) =~= Seq::<MpdAdaptation>::empty());
        assert(gvp + Seq::<(MpdTemplate, MpdRepresentation)>::empty() =~= gvp);
        assert(gap + Seq::<(MpdTemplate, MpdRepresentation)>::empty() =~= gap);
    }
    Ok((video, audio))
}

#[verifier::external_type_specification]
#[verifier::external_body]
pub struct ExSegmentTemplate(dash_mpd::SegmentTemplate);

#[verifier::external_type_specification]
#[verifier::external_body]
pub struct ExRepresentation(dash_mpd::Representation);

/// What parsing MPD bytes (decoded lossily as UTF-8) and reducing the first
/// period to this library's model yields: a function of the bytes alone.
/// `None` stands for malformed XML or for a document without a period.
pub uninterp spec fn mpd_adaptations(bytes: Seq<u8>) -> Option<Seq<MpdAdaptation>>;

/// An ASCII decimal digit.
pub open spec fn spec_ascii_digit(b: u8) -> bool {
    48 <= b <= 57
}

/// One of the ISO-8601 duration unit letters `Y`, `M`, `W`, `D`, `H`, `S`.
pub open spec fn spec_duration_unit(b: u8) -> bool {
    b == 89 || b == 77 || b == 87 || b == 68 || b == 72 || b == 83
}

/// No duration unit letter in the document follows a run of twelve or more
/// digits. Every numeric component of every duration attribute then stays
/// below `10^11`, and the manifest parser's 64-bit seconds arithmetic
/// (largest unit factor 31536000, at most seven components per duration)
/// cannot overflow.
pub open spec fn spec_mpd_screen_ok(bytes: Seq<u8>) -> bool {
    forall|j: int|
        12 <= j < bytes.len() && spec_duration_unit(#[trigger] bytes[j]) ==> exists|k: int|
            j - 12 <= k < j && !spec_ascii_digit(#[trigger] bytes[k])
}

/// Screen manifest bytes before parsing: reject any document in which a
/// duration unit letter follows twelve or more digits. Such a component
/// (over three thousand years) could overflow the parser's duration
/// arithmetic; no realistic manifest carries one.
#[verifier::loop_isolation(false)]
fn mpd_prescreen(bytes: &Vec<u8>) -> (ok: bool)
    ensures
        ok == spec_mpd_screen_ok(bytes@),
{
    let mut i: usize = 0;
    let mut run: usize = 0;
    while i < bytes.len()
        invariant
            0 <= i <= bytes@.len(),
            run <= i,
            forall|k: int| i - run <= k < i ==> spec_ascii_digit(#[trigger] bytes@[k]),
            run < i ==> !spec_ascii_digit(bytes@[i - run - 1]),
            forall|j: int|
                12 <= j < i && spec_duration_unit(#[trigger] bytes@[j]) ==> exists|k: int|
                    j - 12 <= k < j && !spec_ascii_digit(#[trigger] bytes@[k]),
        decreases bytes@.len() - i,
    {
        let b = bytes[i];
        if b == 89 || b == 77 || b == 87 || b == 68 || b == 72 || b == 83 {
            if run >= 12 {
                proof {
                    assert(spec_duration_unit(bytes@[i as int]));
                    assert(forall|k: int|
                        i - 12 <= k < i ==> spec_ascii_digit(#[trigger] bytes@[k]));
                }
                return false;
            }
            proof {
                if i >= 12 {
                    assert(i - 12 <= i - run - 1 < i);
                    assert(!spec_ascii_digit(bytes@[i - run - 1]));
                }
            }
        }
        if 48 <= b && b <= 57 {
            run = run + 1;
        } else {
            run = 0;
        }
        i += 1;
    }
    true
}

/// Relies on the MPD model of `dash_mpd`: one segment template, reduced
/// field for field to what this library reads.
#[verifier::external_body]
fn template_info(t: &dash_mpd::SegmentTemplate) -> MpdTemplate {
    MpdTemplate {
        initialization: t.initialization.clone(),
        media: t.media.clone(),
        start_number: t.startNumber,
        timeline: t.SegmentTimeline.as_ref().map(|tl| {
            tl.segments.iter().map(|s| TimelineEntry { d: s.d, r: s.r }).collect()
        }),
    }
}

/// Relies on the MPD model of `dash_mpd`: one representation, reduced to the
/// fields this library reads (every base URL, in order).
#[verifier::external_body]
fn representation_info(r: &dash_mpd::Representation) -> MpdRepresentation {
    MpdRepresentation {
        id: r.id.clone(),
        base_urls: r.BaseURL.iter().map(|b| b.base.clone()).collect(),
        width: r.width,
        height: r.height,
        bandwidth: r.bandwidth,
        frame_rate: r.frameRate.clone(),
        codecs: r.codecs.clone(),
    }
}

/// Relies on `dash_mpd::parse`: XML deserialization of an MPD document is a
/// function of its text alone, and the adaptation sets of the first period
/// are projected field for field onto this library's model; the parse error
/// (or the absence of any period) is rendered as a string. The input must
/// be pre-screened: a duration attribute component of twelve or more digits
/// could overflow the parser's 64-bit seconds arithmetic, which would panic
/// rather than return.
#[verifier::external_body]
fn parse_mpd(bytes: &Vec<u8>) -> (r: Result<Vec<MpdAdaptation>, String>)
    requires
        spec_mpd_screen_ok(bytes@),
    ensures
        match r {
            Ok(v) => mpd_adaptations(bytes@) == Some(v@),
            Err(_) => mpd_adaptations(bytes@) is None,
        },
{
    let mpd = match dash_mpd::parse(&String::from_utf8_lossy(bytes.as_slice())) {
        Ok(m) => m,
        Err(e) => return Err(e.to_string()),
    };
    let period = match mpd.periods.first() {
        Some(p) => p,
        None => return Err("no period in manifest".to_string()),
    };
    Ok(period.adaptations.iter().map(|a| MpdAdaptation {
        max_width: a.maxWidth,
        max_height: a.maxHeight,
        segment_template: a.SegmentTemplate.as_ref().map(template_info),
        representations: a.representations.iter().map(representation_info).collect(),
    }).collect())
}

/// Parse MPD bytes and reduce the first period's adaptation sets to the
/// plain model the verified logic works on, exactly as `mpd_adaptations`
/// names it. Only the first period is consulted; multi-period manifests are
/// unsupported. Every failure is a decode error carrying the raw bytes and
/// the source URL; a manifest with an oversized duration component is
/// rejected before parsing.
pub fn parse_mpd_adaptations(bytes: &Vec<u8>, url: &str) -> (r: Result<Vec<MpdAdaptation>, Error>)
    ensures
        ({
            if !spec_mpd_screen_ok(bytes@) {
                r matches Err(Error::Decode { message, content, url: u }) && message@
                    == "manifest rejected: oversized duration component"@ && content@ == bytes@
                    && u@ == url@
            } else {
                match mpd_adaptations(bytes@) {
                    Some(a) => (r matches Ok(v) && v@ == a),
                    None => (r matches Err(Error::Decode { message, content, url: u })
                        && content@ == bytes@ && u@ == url@),
                }
            }
        }),
{
    if !mpd_prescreen(bytes) {
        return Err(
            Error::Decode {
                message: String::from_str("manifest rejected: oversized duration component"),
                content: clone_bytes(bytes),
                url: String::from_str(url),
            },
        );
    }
    match parse_mpd(bytes) {
        Ok(v) => Ok(v),
        Err(msg) => Err(
            Error::Decode {
                message: msg,
                content: clone_bytes(bytes),
                url: String::from_str(url),
            },
        ),
    }
}

/// Resolve DASH variants from raw MPD bytes: parse the document, classify
/// each adaptation set of the first period as video or audio, and expand
/// every representation. Unparsable bytes give a decode error carrying them;
/// a structurally broken manifest gives the internal error `spec_dash_error`
/// names; otherwise the two variant lists match the manifest's
/// (template, representation) pairs exactly, video first, audio second.
pub fn dash_streams_from_mpd(bytes: &Vec<u8>, url: &str) -> (r: Result<
    (Vec<VariantData>, Vec<VariantData>),
    Error,
>)
    ensures
        !spec_mpd_screen_ok(bytes@) ==> (r matches Err(Error::Decode { message, content, url: u })
            && message@ == "manifest rejected: oversized duration component"@ && content@
            == bytes@ && u@ == url@),
        spec_mpd_screen_ok(bytes@) ==> match mpd_adaptations(bytes@) {
            None => (r matches Err(Error::Decode { message, content, url: u }) && content@
                == bytes@ && u@ == url@),
            Some(ads) => match spec_dash_error(ads) {
                Some(m) => (r matches Err(Error::Internal { message }) && message@ == m),
                None => (r matches Ok(p) && {
                    let vp = spec_transport_pairs(ads, true);
                    let ap = spec_transport_pairs(ads, false);
                    &&& p.0@.len() == vp.len()
                    &&& p.1@.len() == ap.len()
                    &&& (forall|i: int|
                        0 <= i < vp.len() ==> spec_variant_matches_rep(
                            #[trigger] p.0@[i],
                            vp[i].0,
                            vp[i].1,
                        ) && p.0@[i].wf())
                    &&& (forall|i: int|
                        0 <= i < ap.len() ==> spec_variant_matches_rep(
                            #[trigger] p.1@[i],
                            ap[i].0,
                            ap[i].1,
                        ) && p.1@[i].wf())
                }),
            },
        },
{
    let ads = match parse_mpd_adaptations(bytes, url) {
        Ok(a) => a,
        Err(e) => {
            return Err(e);
        },
    };
    dash_variants_from_adaptations(&ads)
}

} // verus!
