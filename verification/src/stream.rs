use vstd::prelude::*;
use vstd::string::StringExecFns;
use crate::error::{Error, msg_no_locale, msg_no_stream, msg_no_supported};

verus! {

/// A hardsub locale tag. Two sentinel values mark a stream without burned-in
/// subtitles: the empty string and the literal `":"`; both must be preserved
/// as they appear upstream.
pub type Locale = String;

/// One raw stream descriptor: an optional HLS master manifest URL and an
/// optional DASH MPD manifest URL. Both may be absent for a locale.
#[derive(Debug)]
pub struct RawStreamDescriptor {
    pub adaptive_hls: Option<String>,
    pub adaptive_dash: Option<String>,
}

/// Which manifest family a caller asks for.
#[derive(Debug, Clone, Copy)]
pub enum Transport {
    Hls,
    Dash,
}

/// A locale-indexed set of raw stream descriptors, as handed over by the
/// catalog layer. Keys are expected to be unique; lookup takes the first
/// matching entry, so duplicate keys cannot make resolution ambiguous.
pub struct Stream {
    pub variants: Vec<(Locale, RawStreamDescriptor)>,
}

/// The URL a descriptor holds for the given transport.
pub open spec fn spec_transport_url(d: RawStreamDescriptor, t: Transport) -> Option<String> {
    match t {
        Transport::Hls => d.adaptive_hls,
        Transport::Dash => d.adaptive_dash,
    }
}

/// First descriptor whose locale equals `key`.
pub open spec fn spec_lookup(
    entries: Seq<(Locale, RawStreamDescriptor)>,
    key: Seq<char>,
) -> Option<RawStreamDescriptor>
    decreases entries.len(),
{
    if entries.len() == 0 {
        None
    } else if entries[0].0@ == key {
        Some(entries[0].1)
    } else {
        spec_lookup(entries.drop_first(), key)
    }
}

/// Abstract outcome of locale resolution: either the selected URL or one of
/// the three documented failure states.
pub enum ResolveOutcome {
    Url(String),
    NoSuchLocale,
    TransportMissing,
    NoSentinel,
}

/// Outcome once a descriptor has been located: its transport URL, or failure
/// when that transport is absent on the descriptor.
pub open spec fn spec_resolve_at(d: RawStreamDescriptor, t: Transport) -> ResolveOutcome {
    match spec_transport_url(d, t) {
        Some(u) => ResolveOutcome::Url(u),
        None => ResolveOutcome::TransportMissing,
    }
}

/// Full resolution rule. A requested locale must exist exactly; with no
/// requested locale the empty-string sentinel is tried before the `":"`
/// sentinel, in that fixed order, and the first sentinel whose key exists is
/// committed to.
pub open spec fn spec_resolve(
    entries: Seq<(Locale, RawStreamDescriptor)>,
    hardsub: Option<Locale>,
    t: Transport,
) -> ResolveOutcome {
    match hardsub {
        Some(loc) => match spec_lookup(entries, loc@) {
            None => ResolveOutcome::NoSuchLocale,
            Some(d) => spec_resolve_at(d, t),
        },
        None => match spec_lookup(entries, ""@) {
            Some(d) => spec_resolve_at(d, t),
            None => match spec_lookup(entries, ":"@) {
                Some(d) => spec_resolve_at(d, t),
                None => ResolveOutcome::NoSentinel,
            },
        },
    }
}

impl Stream {
    /// All hardsub locales this stream set offers, in storage order.
    pub fn streaming_hardsub_locales(&self) -> (r: Vec<Locale>)
        ensures
            r@.len() == self.variants@.len(),
            forall|i: int| 0 <= i < r@.len() ==> r@[i] == self.variants@[i].0,
    {
        let mut out: Vec<Locale> = Vec::new();
        let mut i: usize = 0;
        while i < self.variants.len()
            invariant
                i <= self.variants@.len(),
                out@.len() == i,
                forall|j: int| 0 <= j < i ==> out@[j] == self.variants@[j].0,
            decreases self.variants@.len() - i,
        {
            out.push(self.variants[i].0.clone());
            i += 1;
        }
        out
    }

    /// Linear scan for the first entry keyed by `key`.
    fn find(&self, key: &String) -> (r: Option<&RawStreamDescriptor>)
        ensures
            match r {
                Some(d) => spec_lookup(self.variants@, key@) == Some(*d),
                None => spec_lookup(self.variants@, key@) is None,
            },
    {
        let mut i: usize = 0;
        proof {
            assert(self.variants@.skip(0) =~= self.variants@);
        }
        while i < self.variants.len()
            invariant
                i <= self.variants@.len(),
                spec_lookup(self.variants@, key@) == spec_lookup(
                    self.variants@.skip(i as int),
                    key@,
                ),
            decreases self.variants@.len() - i,
        {
            if self.variants[i].0 == *key {
                return Some(&self.variants[i].1);
            }
            proof {
                assert(self.variants@.skip(i as int).drop_first() =~= self.variants@.skip(
                    i as int + 1,
                ));
            }
            i += 1;
        }
        None
    }

    /// Select the stream URL for the requested hardsub locale and transport.
    ///
    /// This is a pure lookup: it either returns a URL that some descriptor
    /// actually holds for this transport, or one of the three documented
    /// failure states, exactly as `spec_resolve` lays them out.
    pub fn resolve_stream_url(&self, hardsub: Option<Locale>, transport: Transport) -> (r: Result<
        String,
        Error,
    >)
        ensures
            match spec_resolve(self.variants@, hardsub, transport) {
                ResolveOutcome::Url(u) => r == Ok::<String, Error>(u),
                ResolveOutcome::NoSuchLocale => (r matches Err(Error::NotFound { message })
                    && message@ == msg_no_locale(hardsub.unwrap()@)),
                ResolveOutcome::TransportMissing => (r matches Err(Error::NotFound { message })
                    && message@ == msg_no_stream()),
                ResolveOutcome::NoSentinel => (r matches Err(Error::Internal { message })
                    && message@ == msg_no_supported()),
            },
    {
        match hardsub {
            Some(loc) => match self.find(&loc) {
                Some(d) => Self::url_of(d, transport),
                None => Err(
                    Error::NotFound {
                        message: String::from_str("no stream with hardsub locale ").concat(
                            loc.as_str(),
                        ),
                    },
                ),
            },
            None => {
                let empty = String::from_str("");
                if let Some(d) = self.find(&empty) {
                    Self::url_of(d, transport)
                } else {
                    let colon = String::from_str(":");
                    if let Some(d) = self.find(&colon) {
                        Self::url_of(d, transport)
                    } else {
                        Err(
                            Error::Internal {
                                message: String::from_str("could not find supported stream"),
                            },
                        )
                    }
                }
            },
        }
    }

    /// Convenience form of `resolve_stream_url` for the HLS transport.
    pub fn hls_stream_url(&self, hardsub: Option<Locale>) -> (r: Result<String, Error>)
        ensures
            match spec_resolve(self.variants@, hardsub, Transport::Hls) {
                ResolveOutcome::Url(u) => r == Ok::<String, Error>(u),
                ResolveOutcome::NoSuchLocale => (r matches Err(Error::NotFound { message })
                    && message@ == msg_no_locale(hardsub.unwrap()@)),
                ResolveOutcome::TransportMissing => (r matches Err(Error::NotFound { message })
                    && message@ == msg_no_stream()),
                ResolveOutcome::NoSentinel => (r matches Err(Error::Internal { message })
                    && message@ == msg_no_supported()),
            },
    {
        self.resolve_stream_url(hardsub, Transport::Hls)
    }

    /// Convenience form of `resolve_stream_url` for the DASH transport.
    pub fn dash_stream_url(&self, hardsub: Option<Locale>) -> (r: Result<String, Error>)
        ensures
            match spec_resolve(self.variants@, hardsub, Transport::Dash) {
                ResolveOutcome::Url(u) => r == Ok::<String, Error>(u),
                ResolveOutcome::NoSuchLocale => (r matches Err(Error::NotFound { message })
                    && message@ == msg_no_locale(hardsub.unwrap()@)),
                ResolveOutcome::TransportMissing => (r matches Err(Error::NotFound { message })
                    && message@ == msg_no_stream()),
                ResolveOutcome::NoSentinel => (r matches Err(Error::Internal { message })
                    && message@ == msg_no_supported()),
            },
    {
        self.resolve_stream_url(hardsub, Transport::Dash)
    }

    /// One descriptor's URL for a transport, or the `NotFound` error that
    /// reports the transport as absent.
    fn url_of(d: &RawStreamDescriptor, transport: Transport) -> (r: Result<String, Error>)
        ensures
            match spec_resolve_at(*d, transport) {
                ResolveOutcome::Url(u) => r == Ok::<String, Error>(u),
                ResolveOutcome::TransportMissing => (r matches Err(Error::NotFound { message })
                    && message@ == msg_no_stream()),
                ResolveOutcome::NoSuchLocale => false,
                ResolveOutcome::NoSentinel => false,
            },
    {
        let o = match transport {
            Transport::Hls => &d.adaptive_hls,
            Transport::Dash => &d.adaptive_dash,
        };
        match o {
            Some(u) => Ok(u.clone()),
            None => Err(Error::NotFound { message: String::from_str("no stream available") }),
        }
    }
}

/// A located descriptor carries its value: whenever lookup succeeds, some
/// entry of the set holds exactly that descriptor under that key.
pub proof fn lemma_lookup_member(entries: Seq<(Locale, RawStreamDescriptor)>, key: Seq<char>)
    ensures
        match spec_lookup(entries, key) {
            Some(d) => exists|i: int|
                0 <= i < entries.len() && entries[i].0@ == key && entries[i].1 == d,
            None => true,
        },
    decreases entries.len(),
{
    if entries.len() > 0 && entries[0].0@ != key {
        lemma_lookup_member(entries.drop_first(), key);
        match spec_lookup(entries.drop_first(), key) {
            Some(d) => {
                let i = choose|i: int|
                    0 <= i < entries.drop_first().len() && entries.drop_first()[i].0@ == key
                        && entries.drop_first()[i].1 == d;
                assert(entries[i + 1] == entries.drop_first()[i]);
            },
            None => {},
        }
    }
}

/// Resolution never returns an empty-but-successful result: every URL it
/// hands out is one that some locale's descriptor holds for the requested
/// transport, and every failure is one of the three documented error states.
pub proof fn lemma_resolve_populated(
    entries: Seq<(Locale, RawStreamDescriptor)>,
    hardsub: Option<Locale>,
    t: Transport,
)
    ensures
        match spec_resolve(entries, hardsub, t) {
            ResolveOutcome::Url(u) => exists|i: int|
                0 <= i < entries.len() && spec_transport_url(#[trigger] entries[i].1, t) == Some(u),
            ResolveOutcome::NoSuchLocale => hardsub is Some,
            ResolveOutcome::TransportMissing => true,
            ResolveOutcome::NoSentinel => hardsub is None,
        },
{
    match hardsub {
        Some(loc) => {
            lemma_lookup_member(entries, loc@);
        },
        None => {
            lemma_lookup_member(entries, ""@);
            lemma_lookup_member(entries, ":"@);
        },
    }
}

/// Fallback order law: with no requested locale, as long as the empty-string
/// sentinel locale exists, resolution goes by it and the `":"` sentinel is
/// never consulted.
pub proof fn lemma_sentinel_order(entries: Seq<(Locale, RawStreamDescriptor)>, t: Transport)
    requires
        spec_lookup(entries, ""@) is Some,
    ensures
        spec_resolve(entries, None, t) == spec_resolve_at(
            spec_lookup(entries, ""@).unwrap(),
            t,
        ),
{
}

} // verus!
