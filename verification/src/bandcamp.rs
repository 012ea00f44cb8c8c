use vstd::prelude::*;

use vstd::utf8::encode_utf8;

use crate::duration::Duration;
use crate::http_policy::HttpNetworkAccess;
use crate::playlist::{contains_char, seq_equal};
use crate::remote_http::{RemoteHttpError, RemoteHttpErrorKind, RemoteHttpOptions};
use crate::route_util::{
    ascii_lowercase, contains, opt_seq_is, to_ascii_lowercase, utf8_len, utf8_length,
};
use crate::text::{
    chars_of, copy_range, has_byte_prefix, has_prefix, split_once, split_once_chars, starts_with,
    starts_with_bytes, string_from_chars,
};
use crate::uri::{parse_uri, UriView};

verus! {

pub const MAX_CONFIGURED_IDENTIFIER_BYTES: usize = 64 * 1024;

pub const MAX_CONFIGURED_METADATA_STRING_BYTES: usize = 1024 * 1024;

pub const MAX_CONFIGURED_COLLECTION_TRACKS: usize = 10_000;

pub const MAX_CONFIGURED_PAGE_BYTES: u64 = 64 * 1024 * 1024;

pub const MAX_CONFIGURED_EMBEDDED_JSON_BYTES: usize = 32 * 1024 * 1024;

pub const MAX_CONFIGURED_PLAYBACK_URL_BYTES: usize = 1024 * 1024;

// ---------------------------------------------------------------------------------------------
// Errors
// ---------------------------------------------------------------------------------------------

#[derive(Clone, Copy, Debug, PartialEq, Eq, Structural)]
pub enum BandcampErrorKind {
    InvalidOptions,
    Cancelled,
    Shutdown,
    Network,
    RateLimited,
    Unavailable,
    InvalidResponse,
    UnsupportedRoute,
}

#[derive(Clone, Copy, Debug, PartialEq, Eq, Structural)]
pub struct BandcampError {
    kind: BandcampErrorKind,
}

pub open spec fn spec_bandcamp_message(kind: BandcampErrorKind) -> &'static str {
    match kind {
        BandcampErrorKind::InvalidOptions => "invalid Bandcamp source policy",
        BandcampErrorKind::Cancelled => "Bandcamp load cancelled",
        BandcampErrorKind::Shutdown => "Bandcamp source is shut down",
        BandcampErrorKind::Network => "Bandcamp request failed",
        BandcampErrorKind::RateLimited => "Bandcamp rate limit reached",
        BandcampErrorKind::Unavailable => "Bandcamp content is unavailable",
        BandcampErrorKind::InvalidResponse => "Bandcamp returned an invalid page",
        BandcampErrorKind::UnsupportedRoute => "Bandcamp route is not implemented",
    }
}

impl BandcampError {
    pub closed spec fn spec_kind(self) -> BandcampErrorKind {
        self.kind
    }

    pub fn new(kind: BandcampErrorKind) -> (error: Self)
        ensures
            error.spec_kind() == kind,
    {
        BandcampError { kind }
    }

    pub fn kind(self) -> (kind: BandcampErrorKind)
        ensures
            kind == self.spec_kind(),
    {
        self.kind
    }

    pub fn message(self) -> (text: &'static str)
        ensures
            text == spec_bandcamp_message(self.spec_kind()),
    {
        match self.kind {
            BandcampErrorKind::InvalidOptions => "invalid Bandcamp source policy",
            BandcampErrorKind::Cancelled => "Bandcamp load cancelled",
            BandcampErrorKind::Shutdown => "Bandcamp source is shut down",
            BandcampErrorKind::Network => "Bandcamp request failed",
            BandcampErrorKind::RateLimited => "Bandcamp rate limit reached",
            BandcampErrorKind::Unavailable => "Bandcamp content is unavailable",
            BandcampErrorKind::InvalidResponse => "Bandcamp returned an invalid page",
            BandcampErrorKind::UnsupportedRoute => "Bandcamp route is not implemented",
        }
    }
}

pub fn invalid_response() -> (error: BandcampError)
    ensures
        error.spec_kind() == BandcampErrorKind::InvalidResponse,
{
    BandcampError::new(BandcampErrorKind::InvalidResponse)
}

#[derive(Clone, Copy, Debug, PartialEq, Eq, Structural)]
pub enum BandcampPlaybackErrorKind {
    Source(BandcampErrorKind),
    InvalidOptions,
    Cancelled,
    Network,
    InvalidMedia,
    IncompatibleFormat,
}

#[derive(Clone, Copy, Debug, PartialEq, Eq, Structural)]
pub struct BandcampPlaybackError {
    kind: BandcampPlaybackErrorKind,
}

impl BandcampPlaybackError {
    pub closed spec fn spec_kind(self) -> BandcampPlaybackErrorKind {
        self.kind
    }

    pub fn new(kind: BandcampPlaybackErrorKind) -> (error: Self)
        ensures
            error.spec_kind() == kind,
    {
        BandcampPlaybackError { kind }
    }

    pub fn kind(self) -> (kind: BandcampPlaybackErrorKind)
        ensures
            kind == self.spec_kind(),
    {
        self.kind
    }

    pub fn message(self) -> (text: &'static str)
        ensures
            text == (match self.spec_kind() {
                BandcampPlaybackErrorKind::Source(_) => "Bandcamp playback discovery failed",
                BandcampPlaybackErrorKind::InvalidOptions => "invalid Bandcamp media policy",
                BandcampPlaybackErrorKind::Cancelled => "Bandcamp playback cancelled",
                BandcampPlaybackErrorKind::Network => "Bandcamp media request failed",
                BandcampPlaybackErrorKind::InvalidMedia => "Bandcamp returned invalid media",
                BandcampPlaybackErrorKind::IncompatibleFormat => {
                    "Bandcamp media is not a supported MP3 stream"
                },
            }),
    {
        match self.kind {
            BandcampPlaybackErrorKind::Source(_) => "Bandcamp playback discovery failed",
            BandcampPlaybackErrorKind::InvalidOptions => "invalid Bandcamp media policy",
            BandcampPlaybackErrorKind::Cancelled => "Bandcamp playback cancelled",
            BandcampPlaybackErrorKind::Network => "Bandcamp media request failed",
            BandcampPlaybackErrorKind::InvalidMedia => "Bandcamp returned invalid media",
            BandcampPlaybackErrorKind::IncompatibleFormat => {
                "Bandcamp media is not a supported MP3 stream"
            },
        }
    }
}

/// Remote failures seen by the page loader: cancellation, rate limits and missing pages keep
/// their meaning; every other failure is a network failure.
pub open spec fn spec_map_remote_kind(kind: RemoteHttpErrorKind) -> BandcampErrorKind {
    match kind {
        RemoteHttpErrorKind::Cancelled => BandcampErrorKind::Cancelled,
        RemoteHttpErrorKind::RateLimited => BandcampErrorKind::RateLimited,
        RemoteHttpErrorKind::NotFound => BandcampErrorKind::Unavailable,
        _ => BandcampErrorKind::Network,
    }
}

pub fn map_remote_error(error: RemoteHttpError) -> (mapped: BandcampError)
    ensures
        mapped.spec_kind() == spec_map_remote_kind(error@.kind),
{
    BandcampError::new(
        match error.kind() {
            RemoteHttpErrorKind::Cancelled => BandcampErrorKind::Cancelled,
            RemoteHttpErrorKind::RateLimited => BandcampErrorKind::RateLimited,
            RemoteHttpErrorKind::NotFound => BandcampErrorKind::Unavailable,
            _ => BandcampErrorKind::Network,
        },
    )
}

pub fn map_playback_source_error(error: BandcampError) -> (mapped: BandcampPlaybackError)
    ensures
        mapped.spec_kind() == BandcampPlaybackErrorKind::Source(error.spec_kind()),
{
    BandcampPlaybackError::new(BandcampPlaybackErrorKind::Source(error.kind()))
}

// ---------------------------------------------------------------------------------------------
// Options
// ---------------------------------------------------------------------------------------------

/// Scheme policy for ephemeral Bandcamp media URLs.
#[derive(Clone, Copy, Debug, PartialEq, Eq, Structural)]
pub enum BandcampPlaybackScheme {
    Https,
    /// Permit HTTP only alongside the explicit private-network source policy, for trusted
    /// loopback replay; never for public service traffic.
    HttpForPrivateNetworks,
}

/// Bounded routing, public-page parsing, and media-discovery policy for Bandcamp.
#[derive(Clone, Debug, PartialEq, Eq)]
pub struct BandcampSourceOptions {
    pub http: RemoteHttpOptions,
    /// Optional page origin used by deterministic replay or an explicitly trusted mirror. The
    /// validated Bandcamp path is appended to this value.
    pub page_origin_override: Option<String>,
    pub max_identifier_bytes: usize,
    pub max_metadata_string_bytes: usize,
    pub max_collection_tracks: usize,
    pub max_page_bytes: u64,
    pub max_embedded_json_bytes: usize,
    pub max_playback_url_bytes: usize,
    pub max_track_duration: Duration,
    pub playback_scheme: BandcampPlaybackScheme,
}

/// 31 days, the longest configurable track duration.
pub open spec fn max_configured_track_duration() -> int {
    31int * 24 * 3600 * 1_000_000_000
}

impl BandcampSourceOptions {
    pub fn default_options() -> (options: Self)
        ensures
            crate::remote_http::is_default_remote_options(options.http),
            options.page_origin_override is None,
            options.max_identifier_bytes == 8 * 1024,
            options.max_metadata_string_bytes == 64 * 1024,
            options.max_collection_tracks == 600,
            options.max_page_bytes == 4 * 1024 * 1024,
            options.max_embedded_json_bytes == 2 * 1024 * 1024,
            options.max_playback_url_bytes == 64 * 1024,
            options.max_track_duration@ == 24 * 3600 * 1_000_000_000,
            options.playback_scheme == BandcampPlaybackScheme::Https,
    {
        BandcampSourceOptions {
            http: RemoteHttpOptions::default_options(),
            page_origin_override: None,
            max_identifier_bytes: 8 * 1024,
            max_metadata_string_bytes: 64 * 1024,
            max_collection_tracks: 600,
            max_page_bytes: 4 * 1024 * 1024,
            max_embedded_json_bytes: 2 * 1024 * 1024,
            max_playback_url_bytes: 64 * 1024,
            max_track_duration: Duration::from_hours(24),
            playback_scheme: BandcampPlaybackScheme::Https,
        }
    }

    /// The numeric bounds and the scheme policy are consistent.
    pub open spec fn bounds_valid(&self) -> bool {
        &&& 0 < self.max_identifier_bytes <= MAX_CONFIGURED_IDENTIFIER_BYTES
        &&& 0 < self.max_metadata_string_bytes <= MAX_CONFIGURED_METADATA_STRING_BYTES
        &&& 0 < self.max_collection_tracks <= MAX_CONFIGURED_COLLECTION_TRACKS
        &&& 0 < self.max_page_bytes <= MAX_CONFIGURED_PAGE_BYTES
        &&& self.max_page_bytes <= self.http.max_response_bytes
        &&& 0 < self.max_embedded_json_bytes <= MAX_CONFIGURED_EMBEDDED_JSON_BYTES
        &&& 0 < self.max_playback_url_bytes <= MAX_CONFIGURED_PLAYBACK_URL_BYTES
        &&& 0 < self.max_track_duration@ <= max_configured_track_duration()
        &&& !(self.playback_scheme == BandcampPlaybackScheme::HttpForPrivateNetworks
            && self.http.network_access != HttpNetworkAccess::AllowPrivateNetworks)
    }

    /// The whole policy is valid: bounds, and a page origin override that is a plain HTTP(S)
    /// origin, over HTTP only with private networks allowed.
    pub open spec fn is_valid(&self) -> bool {
        &&& self.bounds_valid()
        &&& match self.page_origin_override {
            None => true,
            Some(origin) => spec_valid_page_origin(origin@) && !(has_prefix(origin@, "http://"@)
                && self.http.network_access != HttpNetworkAccess::AllowPrivateNetworks),
        }
    }

    pub fn validate(&self) -> (result: Result<(), BandcampError>)
        ensures
            self.is_valid() ==> result is Ok,
            !self.is_valid() ==> (result matches Err(e) && e.spec_kind()
                == BandcampErrorKind::InvalidOptions),
    {
        let ceiling = Duration::from_hours(31 * 24);
        if self.max_identifier_bytes == 0 || self.max_identifier_bytes
            > MAX_CONFIGURED_IDENTIFIER_BYTES || self.max_metadata_string_bytes == 0
            || self.max_metadata_string_bytes > MAX_CONFIGURED_METADATA_STRING_BYTES
            || self.max_collection_tracks == 0 || self.max_collection_tracks
            > MAX_CONFIGURED_COLLECTION_TRACKS || self.max_page_bytes == 0 || self.max_page_bytes
            > MAX_CONFIGURED_PAGE_BYTES || self.max_page_bytes > self.http.max_response_bytes
            || self.max_embedded_json_bytes == 0 || self.max_embedded_json_bytes
            > MAX_CONFIGURED_EMBEDDED_JSON_BYTES || self.max_playback_url_bytes == 0
            || self.max_playback_url_bytes > MAX_CONFIGURED_PLAYBACK_URL_BYTES
            || self.max_track_duration.is_zero() || ceiling.less_than(&self.max_track_duration) || (
        self.playback_scheme == BandcampPlaybackScheme::HttpForPrivateNetworks
            && self.http.network_access != HttpNetworkAccess::AllowPrivateNetworks) {
            return Err(BandcampError::new(BandcampErrorKind::InvalidOptions));
        }
        match &self.page_origin_override {
            Some(origin) => {
                if !valid_page_origin(origin.as_str()) {
                    return Err(BandcampError::new(BandcampErrorKind::InvalidOptions));
                }
                let http = chars_of("http://");
                if starts_with(chars_of(origin.as_str()).as_slice(), http.as_slice())
                    && self.http.network_access != HttpNetworkAccess::AllowPrivateNetworks {
                    return Err(BandcampError::new(BandcampErrorKind::InvalidOptions));
                }
            },
            None => {},
        }
        Ok(())
    }
}

/// A page origin override: bounded, with no query, fragment or user information, that parses
/// as an HTTP(S) URI with an authority and is accepted as a request URL.
pub open spec fn spec_valid_page_origin(origin: Seq<char>) -> bool {
    &&& origin.len() > 0
    &&& utf8_len(origin) <= MAX_CONFIGURED_IDENTIFIER_BYTES
    &&& !contains_char(origin, '?')
    &&& !contains_char(origin, '#')
    &&& !contains_char(origin, '@')
    &&& match crate::uri::parsed_uri(origin) {
        None => false,
        Some(u) => (u.scheme == Some("http"@) || u.scheme == Some("https"@)) && u.authority is Some
            && crate::remote_http::spec_remote_uri(origin) is Some,
    }
}

pub fn valid_page_origin(origin: &str) -> (valid: bool)
    ensures
        valid == spec_valid_page_origin(origin@),
{
    let text = chars_of(origin);
    if text.len() == 0 || utf8_length(text.as_slice()) > MAX_CONFIGURED_IDENTIFIER_BYTES || contains(
        text.as_slice(),
        '?',
    ) || contains(text.as_slice(), '#') || contains(text.as_slice(), '@') {
        return false;
    }
    let uri = match parse_uri(text.as_slice()) {
        Some(u) => u,
        None => {
            return false;
        },
    };
    if !(opt_seq_is(&uri.scheme, "http") || opt_seq_is(&uri.scheme, "https"))
        || uri.authority.is_none() {
        return false;
    }
    crate::remote_http::parse_remote_uri(origin).is_ok()
}

} // verus!

verus! {

// ---------------------------------------------------------------------------------------------
// Embedded page data
// ---------------------------------------------------------------------------------------------

pub open spec fn ascii_bytes(s: Seq<char>) -> Seq<u8> {
    s.map_values(|c: char| c as u8)
}

/// The first position at which `needle` occurs in `haystack`.
pub open spec fn spec_find_bytes(haystack: Seq<u8>, needle: Seq<u8>, from: int) -> Option<int>
    decreases haystack.len() + 1 - from,
{
    if from < 0 || from + needle.len() > haystack.len() {
        None
    } else if haystack.subrange(from, from + needle.len()) == needle {
        Some(from)
    } else {
        spec_find_bytes(haystack, needle, from + 1)
    }
}

pub fn find_bytes(haystack: &[u8], needle: &[u8]) -> (result: Option<usize>)
    requires
        needle@.len() > 0,
    ensures
        match result {
            Some(i) => spec_find_bytes(haystack@, needle@, 0) == Some(i as int),
            None => spec_find_bytes(haystack@, needle@, 0) is None,
        },
{
    let n = haystack.len();
    if needle.len() > n {
        return None;
    }
    let m = needle.len();
    let mut i: usize = 0;
    while i <= n - m
        invariant
            i <= n - m + 1,
            m == needle@.len(),
            m > 0,
            n == haystack@.len(),
            needle@.len() <= n,
            spec_find_bytes(haystack@, needle@, 0) == spec_find_bytes(haystack@, needle@, i as int),
        decreases n - i,
    {
        let window = &haystack[i..i + m];
        if starts_with_bytes(window, needle) {
            proof {
                assert(window@.take(needle@.len() as int) =~= window@);
                assert(window@ =~= haystack@.subrange(i as int, i + needle@.len()));
            }
            return Some(i);
        }
        proof {
            assert(window@.take(needle@.len() as int) =~= window@);
        }
        i = i + 1;
    }
    None
}

/// The `data-tralbum="` attribute that starts the embedded page data.
pub open spec fn tralbum_attribute() -> Seq<u8> {
    ascii_bytes("data-tralbum=\""@)
}

/// The still-encoded value of the only `data-tralbum` attribute, bounded by eight encoded bytes
/// per decoded byte.
pub open spec fn spec_extract_tralbum(body: Seq<u8>, decoded_limit: int) -> Option<Seq<u8>> {
    match spec_find_bytes(body, tralbum_attribute(), 0) {
        None => None,
        Some(p) => {
            let tail = body.skip(p + tralbum_attribute().len());
            match spec_find_bytes(tail, seq![34u8], 0) {
                None => None,
                Some(end) => {
                    let encoded = tail.take(end);
                    let bound = if decoded_limit * 8 > usize::MAX {
                        usize::MAX as int
                    } else {
                        decoded_limit * 8
                    };
                    if encoded.len() == 0 || encoded.len() > bound || spec_find_bytes(
                        tail.skip(end + 1),
                        tralbum_attribute(),
                        0,
                    ) is Some {
                        None
                    } else {
                        Some(encoded)
                    }
                },
            }
        },
    }
}

proof fn lemma_find_bytes(haystack: Seq<u8>, needle: Seq<u8>, from: int)
    ensures
        spec_find_bytes(haystack, needle, from) matches Some(i) ==> from <= i && i + needle.len()
            <= haystack.len(),
    decreases haystack.len() + 1 - from,
{
    if !(from < 0 || from + needle.len() > haystack.len()) && haystack.subrange(
        from,
        from + needle.len(),
    ) != needle {
        lemma_find_bytes(haystack, needle, from + 1);
    }
}

pub fn extract_tralbum_attribute(body: &[u8], decoded_limit: usize) -> (result: Result<
    Vec<u8>,
    BandcampError,
>)
    ensures
        match spec_extract_tralbum(body@, decoded_limit as int) {
            Some(e) => result matches Ok(v) && v@ == e,
            None => result matches Err(e) && e.spec_kind() == BandcampErrorKind::InvalidResponse,
        },
{
    proof {
        reveal_strlit("data-tralbum=\"");
    }
    let attribute = crate::playlist::ascii_bytes_of("data-tralbum=\"");
    proof {
        lemma_find_bytes(body@, attribute@, 0);
    }
    let _body_len = body.len();
    let position = match find_bytes(body, attribute.as_slice()) {
        Some(p) => p,
        None => {
            return Err(invalid_response());
        },
    };
    let start = position + attribute.len();
    let tail = &body[start..body.len()];
    proof {
        assert(tail@ =~= body@.skip(start as int));
    }
    let quote: [u8; 1] = [34u8];
    proof {
        assert(quote@ =~= seq![34u8]);
        lemma_find_bytes(tail@, seq![34u8], 0);
    }
    let end = match find_bytes(tail, quote.as_slice()) {
        Some(e) => e,
        None => {
            return Err(invalid_response());
        },
    };
    let encoded = &tail[0..end];
    let rest = &tail[end + 1..tail.len()];
    proof {
        assert(encoded@ =~= tail@.take(end as int));
        assert(rest@ =~= tail@.skip(end + 1));
    }
    let bound = if decoded_limit > usize::MAX / 8 {
        usize::MAX
    } else {
        decoded_limit * 8
    };
    if encoded.len() == 0 || encoded.len() > bound || find_bytes(rest, attribute.as_slice()).is_some() {
        return Err(invalid_response());
    }
    let mut out: Vec<u8> = Vec::new();
    out.extend_from_slice(encoded);
    Ok(out)
}

/// The value of an ASCII digit in a radix, if it is one.
pub open spec fn digit_in_radix(b: u8, radix: nat) -> Option<nat> {
    if 48 <= b <= 57 && b - 48 < radix {
        Some((b - 48) as nat)
    } else if radix == 16 && 97 <= b <= 102 {
        Some((b - 87) as nat)
    } else if radix == 16 && 65 <= b <= 70 {
        Some((b - 55) as nat)
    } else {
        None
    }
}

pub open spec fn radix_value(s: Seq<u8>, radix: nat) -> Option<nat>
    decreases s.len(),
{
    if s.len() == 0 {
        Some(0)
    } else {
        match (radix_value(s.drop_last(), radix), digit_in_radix(s.last(), radix)) {
            (Some(v), Some(d)) => Some(v * radix + d),
            _ => None,
        }
    }
}

/// What `u32::from_str_radix` returns: one optional `+`, then at least one digit, fitting.
pub open spec fn spec_parse_u32_radix(s: Seq<u8>, radix: nat) -> Option<u32> {
    let digits = if s.len() > 0 && s[0] == 43 {
        s.skip(1)
    } else {
        s
    };
    if digits.len() == 0 {
        None
    } else {
        match radix_value(digits, radix) {
            Some(v) => if v <= u32::MAX {
                Some(v as u32)
            } else {
                None
            },
            None => None,
        }
    }
}

proof fn lemma_radix_monotone(s: Seq<u8>, radix: nat, i: int)
    requires
        0 <= i <= s.len(),
        radix >= 1,
        radix_value(s, radix) is Some,
    ensures
        radix_value(s.take(i), radix) is Some,
        radix_value(s.take(i), radix)->0 <= radix_value(s, radix)->0,
    decreases s.len() - i,
{
    if i < s.len() {
        assert(s.drop_last().take(i) =~= s.take(i));
        lemma_radix_monotone(s.drop_last(), radix, i);
        let v = radix_value(s.drop_last(), radix)->0;
        let d = digit_in_radix(s.last(), radix)->0;
        assert(v <= v * radix + d) by (nonlinear_arith)
            requires
                radix >= 1,
        ;
    } else {
        assert(s.take(i) =~= s);
    }
}

fn parse_u32_radix(s: &[u8], radix: u32) -> (result: Option<u32>)
    requires
        radix == 10 || radix == 16,
    ensures
        result == spec_parse_u32_radix(s@, radix as nat),
{
    let digits = if s.len() > 0 && s[0] == 43 {
        &s[1..s.len()]
    } else {
        s
    };
    proof {
        if s@.len() > 0 && s@[0] == 43 {
            assert(digits@ =~= s@.skip(1));
        }
    }
    if digits.len() == 0 {
        return None;
    }
    let mut value: u64 = 0;
    let mut k: usize = 0;
    while k < digits.len()
        invariant
            k <= digits@.len(),
            digits@.len() > 0,
            digits@ == (if s@.len() > 0 && s@[0] == 43 {
                s@.skip(1)
            } else {
                s@
            }),
            radix == 10 || radix == 16,
            radix_value(digits@.take(k as int), radix as nat) == Some(value as nat),
            value <= u32::MAX,
        decreases digits@.len() - k,
    {
        let b = digits[k];
        let d: u64 = if 48 <= b && b <= 57 && ((b - 48) as u32) < radix {
            (b - 48) as u64
        } else if radix == 16 && 97 <= b && b <= 102 {
            (b - 87) as u64
        } else if radix == 16 && 65 <= b && b <= 70 {
            (b - 55) as u64
        } else {
            proof {
                assert(digits@.take(k + 1).drop_last() =~= digits@.take(k as int));
                assert(digits@.take(k + 1).last() == b);
                assert(digit_in_radix(b, radix as nat) is None);
                assert(radix_value(digits@.take(k + 1), radix as nat) is None);
                if radix_value(digits@, radix as nat) is Some {
                    lemma_radix_monotone(digits@, radix as nat, k + 1);
                }
            }
            return None;
        };
        assert(value * (radix as u64) + d <= 4_294_967_295u64 * 16 + 15) by (nonlinear_arith)
            requires
                value <= 4_294_967_295u64,
                radix <= 16,
                d <= 15,
        ;
        let next = value * (radix as u64) + d;
        proof {
            assert(digits@.take(k + 1).drop_last() =~= digits@.take(k as int));
            assert(digits@.take(k + 1).last() == b);
        }
        if next > 4_294_967_295u64 {
            proof {
                if radix_value(digits@, radix as nat) is Some {
                    lemma_radix_monotone(digits@, radix as nat, k + 1);
                }
            }
            return None;
        }
        value = next;
        k = k + 1;
    }
    proof {
        assert(digits@.take(digits@.len() as int) =~= digits@);
    }
    Some(value as u32)
}

/// A Unicode scalar value other than NUL.
pub open spec fn nonzero_scalar(cp: u32) -> bool {
    0 < cp <= 0x10FFFF && !(0xD800 <= cp <= 0xDFFF)
}

/// The character that an HTML character reference (without `&` and `;`) names.
pub open spec fn spec_decode_entity(e: Seq<u8>) -> Option<char> {
    if e == ascii_bytes("quot"@) {
        Some('"')
    } else if e == ascii_bytes("amp"@) {
        Some('&')
    } else if e == ascii_bytes("apos"@) || e == ascii_bytes("#39"@) {
        Some('\'')
    } else if e == ascii_bytes("lt"@) {
        Some('<')
    } else if e == ascii_bytes("gt"@) {
        Some('>')
    } else {
        let code = if has_byte_prefix(e, ascii_bytes("#x"@)) || has_byte_prefix(
            e,
            ascii_bytes("#X"@),
        ) {
            spec_parse_u32_radix(e.skip(2), 16)
        } else if has_byte_prefix(e, ascii_bytes("#"@)) {
            spec_parse_u32_radix(e.skip(1), 10)
        } else {
            None
        };
        match code {
            Some(cp) => if nonzero_scalar(cp) {
                Some(cp as char)
            } else {
                None
            },
            None => None,
        }
    }
}

fn byte_literal(text: &str) -> (bytes: Vec<u8>)
    requires
        forall|i: int| 0 <= i < text@.len() ==> (#[trigger] text@[i] as u32) < 128,
    ensures
        bytes@ == ascii_bytes(text@),
{
    crate::playlist::ascii_bytes_of(text)
}

fn bytes_equal(a: &[u8], b: &[u8]) -> (result: bool)
    ensures
        result == (a@ == b@),
{
    if a.len() != b.len() {
        return false;
    }
    let r = starts_with_bytes(a, b);
    proof {
        assert(a@.take(b@.len() as int) =~= a@);
    }
    r
}

pub fn decode_entity(entity: &[u8]) -> (result: Option<char>)
    ensures
        result == spec_decode_entity(entity@),
{
    proof {
        reveal_strlit("quot");
        reveal_strlit("amp");
        reveal_strlit("apos");
        reveal_strlit("#39");
        reveal_strlit("lt");
        reveal_strlit("gt");
        reveal_strlit("#x");
        reveal_strlit("#X");
        reveal_strlit("#");
    }
    if bytes_equal(entity, byte_literal("quot").as_slice()) {
        return Some('"');
    }
    if bytes_equal(entity, byte_literal("amp").as_slice()) {
        return Some('&');
    }
    if bytes_equal(entity, byte_literal("apos").as_slice()) || bytes_equal(
        entity,
        byte_literal("#39").as_slice(),
    ) {
        return Some('\'');
    }
    if bytes_equal(entity, byte_literal("lt").as_slice()) {
        return Some('<');
    }
    if bytes_equal(entity, byte_literal("gt").as_slice()) {
        return Some('>');
    }
    let code = if starts_with_bytes(entity, byte_literal("#x").as_slice()) || starts_with_bytes(
        entity,
        byte_literal("#X").as_slice(),
    ) {
        let hex = &entity[2..entity.len()];
        proof {
            assert(hex@ =~= entity@.skip(2));
        }
        parse_u32_radix(hex, 16)
    } else if starts_with_bytes(entity, byte_literal("#").as_slice()) {
        let dec = &entity[1..entity.len()];
        proof {
            assert(dec@ =~= entity@.skip(1));
        }
        parse_u32_radix(dec, 10)
    } else {
        None
    };
    match code {
        Some(cp) => {
            if 0 < cp && cp <= 0x10FFFF && !(0xD800 <= cp && cp <= 0xDFFF) {
                Some(char_of_scalar(cp))
            } else {
                None
            }
        },
        None => None,
    }
}

/// The character with a given scalar value.
///
/// Calls `char::from_u32`, which the documentation says succeeds exactly for Unicode scalar
/// values; the precondition admits only those, and the result is that character.
#[verifier::external_body]
fn char_of_scalar(cp: u32) -> (c: char)
    requires
        cp <= 0x10FFFF && !(0xD800 <= cp <= 0xDFFF),
    ensures
        c == cp as char,
{
    char::from_u32(cp).unwrap_or('\u{FFFD}')
}

/// The UTF-8 encoding of one character.
fn utf8_of_char(c: char) -> (bytes: Vec<u8>)
    ensures
        bytes@ == encode_utf8(seq![c]),
{
    let chars = [c];
    let text = crate::text::string_from_chars(&chars);
    proof {
        assert(chars@ =~= seq![c]);
    }
    let encoded = text.as_str().as_bytes();
    let mut bytes: Vec<u8> = Vec::new();
    let mut i: usize = 0;
    while i < encoded.len()
        invariant
            i <= encoded@.len(),
            bytes@ == encoded@.take(i as int),
        decreases encoded@.len() - i,
    {
        bytes.push(encoded[i]);
        proof {
            assert(bytes@ =~= encoded@.take(i + 1));
        }
        i = i + 1;
    }
    proof {
        assert(encoded@.take(i as int) =~= encoded@);
    }
    bytes
}

/// The offset of the first `;` among the (at most sixteen) bytes from `start`.
pub open spec fn semicolon_within(e: Seq<u8>, start: int, k: int) -> Option<int>
    decreases 16 - k,
{
    if k >= 16 || start + k >= e.len() || start + k < 0 || k < 0 {
        None
    } else if e[start + k] == 59 {
        Some(k)
    } else {
        semicolon_within(e, start, k + 1)
    }
}

/// A character reference at `offset`: its end (the `;`) and the character.
pub open spec fn entity_at(e: Seq<u8>, offset: int) -> Option<(int, char)> {
    if e[offset] != 38 {
        None
    } else {
        match semicolon_within(e, offset + 1, 0) {
            None => None,
            Some(rel) => match spec_decode_entity(e.subrange(offset + 1, offset + 1 + rel)) {
                Some(c) => Some((offset + 1 + rel, c)),
                None => None,
            },
        }
    }
}

/// Decodes each character reference once; every other byte is kept. The output may not exceed
/// `limit` bytes.
pub open spec fn html_decode_from(e: Seq<u8>, offset: int, out: Seq<u8>, limit: int) -> Option<
    Seq<u8>,
>
    decreases e.len() - offset,
{
    if offset < 0 || offset >= e.len() {
        Some(out)
    } else {
        match entity_at(e, offset) {
            Some((end, c)) => {
                let bytes = encode_utf8(seq![c]);
                if out.len() + bytes.len() > limit {
                    None
                } else if offset < end + 1 <= e.len() {
                    html_decode_from(e, end + 1, out + bytes, limit)
                } else {
                    None
                }
            },
            None => if out.len() + 1 > limit {
                None
            } else {
                html_decode_from(e, offset + 1, out.push(e[offset]), limit)
            },
        }
    }
}

proof fn lemma_semicolon_within(e: Seq<u8>, start: int, k: int)
    ensures
        semicolon_within(e, start, k) matches Some(r) ==> k <= r < 16 && 0 <= start + r < e.len()
            && r >= 0 && e[start + r] == 59,
    decreases 16 - k,
{
    if !(k >= 16 || start + k >= e.len() || start + k < 0 || k < 0) && e[start + k] != 59 {
        lemma_semicolon_within(e, start, k + 1);
    }
}

fn find_semicolon(e: &[u8], start: usize) -> (result: Option<usize>)
    requires
        start <= e@.len(),
    ensures
        match result {
            Some(r) => semicolon_within(e@, start as int, 0) == Some(r as int),
            None => semicolon_within(e@, start as int, 0) is None,
        },
{
    let n = e.len();
    let mut k: usize = 0;
    while k < 16 && k < n - start && e[start + k] != 59
        invariant
            k <= 16,
            n == e@.len(),
            start <= e@.len(),
            semicolon_within(e@, start as int, 0) == semicolon_within(e@, start as int, k as int),
        decreases 16 - k,
    {
        k = k + 1;
    }
    if k < 16 && k < n - start {
        Some(k)
    } else {
        None
    }
}

/// Decodes the HTML character references of an attribute value, each exactly once.
pub fn decode_html_attribute(encoded: &[u8], limit: usize) -> (result: Result<Vec<u8>, BandcampError>)
    ensures
        match html_decode_from(encoded@, 0, Seq::empty(), limit as int) {
            Some(d) => result matches Ok(v) && v@ == d,
            None => result matches Err(e) && e.spec_kind() == BandcampErrorKind::InvalidResponse,
        },
{
    let mut decoded: Vec<u8> = Vec::new();
    let mut offset: usize = 0;
    while offset < encoded.len()
        invariant
            offset <= encoded@.len(),
            html_decode_from(encoded@, 0, Seq::empty(), limit as int) == html_decode_from(
                encoded@,
                offset as int,
                decoded@,
                limit as int,
            ),
        decreases encoded@.len() - offset,
    {
        let ghost before = decoded@;
        if encoded[offset] == 38 {
            match find_semicolon(encoded, offset + 1) {
                Some(rel) => {
                    proof {
                        lemma_semicolon_within(encoded@, offset + 1, 0);
                    }
                    let entity_end = offset + 1 + rel;
                    let entity = &encoded[offset + 1..entity_end];
                    match decode_entity(entity) {
                        Some(c) => {
                            let mut bytes = utf8_of_char(c);
                            if decoded.len() > limit || bytes.len() > limit - decoded.len() {
                                return Err(invalid_response());
                            }
                            let ghost added = bytes@;
                            decoded.append(&mut bytes);
                            proof {
                                assert(decoded@ =~= before + added);
                            }
                            offset = entity_end + 1;
                            continue;
                        },
                        None => {},
                    }
                },
                None => {},
            }
        }
        if decoded.len() >= limit {
            return Err(invalid_response());
        }
        decoded.push(encoded[offset]);
        offset = offset + 1;
    }
    Ok(decoded)
}

} // verus!

verus! {

// ---------------------------------------------------------------------------------------------
// Routing
// ---------------------------------------------------------------------------------------------

/// Current public Bandcamp page shapes supported by the bounded web adapter; each holds the
/// canonical page URL.
#[derive(Clone, Debug, PartialEq, Eq)]
pub enum BandcampRoute {
    Track(String),
    Album(String),
}

pub enum BandcampRouteView {
    Track(Seq<char>),
    Album(Seq<char>),
}

impl View for BandcampRoute {
    type V = BandcampRouteView;

    open spec fn view(&self) -> BandcampRouteView {
        match self {
            BandcampRoute::Track(u) => BandcampRouteView::Track(u@),
            BandcampRoute::Album(u) => BandcampRouteView::Album(u@),
        }
    }
}

impl BandcampRoute {
    pub fn url(&self) -> (url: &str)
        ensures
            url@ == (match self@ {
                BandcampRouteView::Track(u) => u,
                BandcampRouteView::Album(u) => u,
            }),
    {
        match self {
            BandcampRoute::Track(url) => url.as_str(),
            BandcampRoute::Album(url) => url.as_str(),
        }
    }
}

/// A DNS label of a Bandcamp host: 1 to 63 ASCII letters, digits or hyphens, not starting or
/// ending with a hyphen.
pub open spec fn valid_label(label: Seq<char>) -> bool {
    &&& label.len() > 0
    &&& label.len() <= 63
    &&& label[0] != '-'
    &&& label.last() != '-'
    &&& forall|i: int|
        0 <= i < label.len() ==> {
            let c = #[trigger] label[i];
            ('a' <= c && c <= 'z') || ('A' <= c && c <= 'Z') || ('0' <= c && c <= '9') || c == '-'
        }
}

/// Every `.`-separated label is valid.
pub open spec fn all_labels_valid(host: Seq<char>) -> bool
    decreases host.len(),
{
    match split_once(host, '.') {
        None => valid_label(host),
        Some((label, rest)) => valid_label(label) && if rest.len() < host.len() {
            all_labels_valid(rest)
        } else {
            false
        },
    }
}

pub open spec fn has_suffix(s: Seq<char>, suffix: Seq<char>) -> bool {
    suffix.len() <= s.len() && s.skip(s.len() - suffix.len()) == suffix
}

/// `bandcamp.com` or one of its subdomains, with valid labels.
pub open spec fn spec_valid_bandcamp_host(host: Seq<char>) -> bool {
    (host == "bandcamp.com"@ || has_suffix(host, ".bandcamp.com"@)) && all_labels_valid(host)
}

pub(crate) fn ends_with(s: &[char], suffix: &[char]) -> (result: bool)
    ensures
        result == has_suffix(s@, suffix@),
{
    if suffix.len() > s.len() {
        return false;
    }
    let tail = copy_range(s, s.len() - suffix.len(), s.len());
    proof {
        assert(tail@ =~= s@.skip(s@.len() - suffix@.len()));
    }
    seq_equal(tail.as_slice(), suffix)
}

fn is_valid_label(label: &[char]) -> (result: bool)
    ensures
        result == valid_label(label@),
{
    if label.len() == 0 || label.len() > 63 || label[0] == '-' || label[label.len() - 1] == '-' {
        return false;
    }
    let mut i: usize = 0;
    while i < label.len()
        invariant
            i <= label@.len(),
            forall|j: int|
                0 <= j < i ==> {
                    let c = #[trigger] label@[j];
                    ('a' <= c && c <= 'z') || ('A' <= c && c <= 'Z') || ('0' <= c && c <= '9')
                        || c == '-'
                },
        decreases label@.len() - i,
    {
        let c = label[i];
        if !(('a' <= c && c <= 'z') || ('A' <= c && c <= 'Z') || ('0' <= c && c <= '9') || c
            == '-') {
            return false;
        }
        i = i + 1;
    }
    true
}

fn labels_valid(host: &[char]) -> (result: bool)
    ensures
        result == all_labels_valid(host@),
{
    let mut rest = copy_range(host, 0, host.len());
    proof {
        assert(rest@ =~= host@);
    }
    loop
        invariant
            all_labels_valid(host@) == all_labels_valid(rest@),
        decreases rest@.len(),
    {
        match split_once_chars(rest.as_slice(), '.') {
            None => {
                return is_valid_label(rest.as_slice());
            },
            Some((label, tail)) => {
                if !is_valid_label(label.as_slice()) {
                    return false;
                }
                if tail.len() >= rest.len() {
                    return false;
                }
                rest = tail;
            },
        }
    }
}

pub fn valid_bandcamp_host(host: &[char]) -> (valid: bool)
    ensures
        valid == spec_valid_bandcamp_host(host@),
{
    if !seq_equal(host, chars_of("bandcamp.com").as_slice()) && !ends_with(
        host,
        chars_of(".bandcamp.com").as_slice(),
    ) {
        return false;
    }
    labels_valid(host)
}

/// A non-empty slug of ASCII letters, digits, `-` and `_`.
pub open spec fn spec_valid_slug(slug: Seq<char>) -> bool {
    slug.len() > 0 && forall|i: int|
        0 <= i < slug.len() ==> crate::route_util::is_token_char(#[trigger] slug[i])
}

pub fn valid_slug(slug: &[char]) -> (valid: bool)
    ensures
        valid == spec_valid_slug(slug@),
{
    if slug.len() == 0 {
        return false;
    }
    let mut i: usize = 0;
    while i < slug.len()
        invariant
            i <= slug@.len(),
            forall|j: int| 0 <= j < i ==> crate::route_util::is_token_char(#[trigger] slug@[j]),
        decreases slug@.len() - i,
    {
        let c = slug[i];
        if !(('a' <= c && c <= 'z') || ('A' <= c && c <= 'Z') || ('0' <= c && c <= '9') || c == '_'
            || c == '-') {
            return false;
        }
        i = i + 1;
    }
    true
}

/// Removes every leading and trailing `/`.
pub open spec fn trim_slashes(s: Seq<char>) -> Seq<char>
    decreases s.len(),
{
    if s.len() > 0 && s[0] == '/' {
        trim_slashes(s.drop_first())
    } else if s.len() > 0 && s.last() == '/' {
        trim_slashes(s.drop_last())
    } else {
        s
    }
}

pub(crate) fn trim_slash_chars(s: &[char]) -> (result: Vec<char>)
    ensures
        result@ == trim_slashes(s@),
{
    let mut t = copy_range(s, 0, s.len());
    proof {
        assert(t@ =~= s@);
    }
    loop
        invariant
            trim_slashes(s@) == trim_slashes(t@),
        decreases t@.len(),
    {
        if t.len() > 0 && t[0] == '/' {
            let next = copy_range(t.as_slice(), 1, t.len());
            proof {
                assert(next@ =~= t@.drop_first());
            }
            t = next;
        } else if t.len() > 0 && t[t.len() - 1] == '/' {
            let next = copy_range(t.as_slice(), 0, t.len() - 1);
            proof {
                assert(next@ =~= t@.drop_last());
            }
            t = next;
        } else {
            return t;
        }
    }
}

/// The identifier without its query.
pub open spec fn without_query(identifier: Seq<char>) -> Seq<char> {
    match split_once(identifier, '?') {
        Some((head, _)) => head,
        None => identifier,
    }
}

/// Accepts `https://<artist>.bandcamp.com/track/<slug>` and `.../album/<slug>` (scheme optional,
/// query dropped) and gives the canonical HTTPS URL.
pub open spec fn spec_route_bandcamp(identifier: Seq<char>, options: BandcampSourceOptions) -> Option<
    BandcampRouteView,
> {
    if identifier.len() == 0 || utf8_len(identifier) > options.max_identifier_bytes
        || contains_char(identifier, '#') {
        None
    } else {
        let base = without_query(identifier);
        let normalized = if has_prefix(base, "http://"@) || has_prefix(base, "https://"@) {
            base
        } else {
            "https://"@ + base
        };
        match crate::uri::parsed_uri(normalized) {
            None => None,
            Some(u) => if !(u.scheme == Some("http"@) || u.scheme == Some("https"@))
                || u.authority is None || contains_char(u.authority->0, '@') || u.host
                != u.authority {
                None
            } else {
                let host = ascii_lowercase(u.host->0);
                let path = trim_slashes(u.path);
                if !spec_valid_bandcamp_host(host) {
                    None
                } else {
                    match split_once(path, '/') {
                        None => None,
                        Some((kind, slug)) => if contains_char(slug, '/') || !spec_valid_slug(slug) {
                            None
                        } else {
                            let canonical = "https://"@ + host + "/"@ + kind + "/"@ + slug;
                            if kind == "track"@ {
                                Some(BandcampRouteView::Track(canonical))
                            } else if kind == "album"@ {
                                Some(BandcampRouteView::Album(canonical))
                            } else {
                                None
                            }
                        },
                    }
                }
            },
        }
    }
}

fn concat_chars(a: &[char], b: &[char]) -> (result: Vec<char>)
    ensures
        result@ == a@ + b@,
{
    let mut out = copy_range(a, 0, a.len());
    let mut tail = copy_range(b, 0, b.len());
    let ghost x = out@;
    let ghost y = tail@;
    out.append(&mut tail);
    proof {
        assert(a@.subrange(0, a@.len() as int) =~= a@);
        assert(b@.subrange(0, b@.len() as int) =~= b@);
        assert(out@ =~= x + y);
    }
    out
}

/// Routes a bounded identifier without network access.
pub fn route_bandcamp_identifier(identifier: &str, options: &BandcampSourceOptions) -> (route:
    Option<BandcampRoute>)
    ensures
        match spec_route_bandcamp(identifier@, *options) {
            Some(r) => route matches Some(x) && x@ == r,
            None => route is None,
        },
{
    let text = chars_of(identifier);
    if text.len() == 0 || utf8_length(text.as_slice()) > options.max_identifier_bytes || contains(
        text.as_slice(),
        '#',
    ) {
        return None;
    }
    let base = match split_once_chars(text.as_slice(), '?') {
        Some((head, _)) => head,
        None => copy_range(text.as_slice(), 0, text.len()),
    };
    proof {
        assert(text@.subrange(0, text@.len() as int) =~= text@);
    }
    let https = chars_of("https://");
    let normalized = if starts_with(base.as_slice(), chars_of("http://").as_slice()) || starts_with(
        base.as_slice(),
        https.as_slice(),
    ) {
        base
    } else {
        concat_chars(https.as_slice(), base.as_slice())
    };
    let uri = parse_uri(normalized.as_slice())?;
    if !(opt_seq_is(&uri.scheme, "http") || opt_seq_is(&uri.scheme, "https")) {
        return None;
    }
    let authority = match &uri.authority {
        Some(a) => a,
        None => {
            return None;
        },
    };
    if contains(authority.as_slice(), '@') {
        return None;
    }
    let raw_host = match &uri.host {
        Some(h) => h,
        None => {
            return None;
        },
    };
    if !seq_equal(raw_host.as_slice(), authority.as_slice()) {
        return None;
    }
    let host = to_ascii_lowercase(raw_host.as_slice());
    if !valid_bandcamp_host(host.as_slice()) {
        return None;
    }
    let path = trim_slash_chars(uri.path.as_slice());
    let (kind, slug) = split_once_chars(path.as_slice(), '/')?;
    if contains(slug.as_slice(), '/') || !valid_slug(slug.as_slice()) {
        return None;
    }
    let slash = chars_of("/");
    let mut canonical = concat_chars(https.as_slice(), host.as_slice());
    canonical = concat_chars(canonical.as_slice(), slash.as_slice());
    canonical = concat_chars(canonical.as_slice(), kind.as_slice());
    canonical = concat_chars(canonical.as_slice(), slash.as_slice());
    canonical = concat_chars(canonical.as_slice(), slug.as_slice());
    let url = string_from_chars(canonical.as_slice());
    if seq_equal(kind.as_slice(), chars_of("track").as_slice()) {
        Some(BandcampRoute::Track(url))
    } else if seq_equal(kind.as_slice(), chars_of("album").as_slice()) {
        Some(BandcampRoute::Album(url))
    } else {
        None
    }
}

// ---------------------------------------------------------------------------------------------
// Playback URLs
// ---------------------------------------------------------------------------------------------

/// An ephemeral Bandcamp MP3 URL. Its diagnostics always redact the value.
#[derive(Clone, PartialEq, Eq)]
pub struct BandcampPlaybackUrl {
    url: String,
}

impl BandcampPlaybackUrl {
    pub closed spec fn spec_url(&self) -> Seq<char> {
        self.url@
    }

    pub fn as_str(&self) -> (url: &str)
        ensures
            url@ == self.spec_url(),
    {
        self.url.as_str()
    }
}

/// `bcbits.com` or one of its subdomains.
pub open spec fn spec_valid_bcbits_host(host: Seq<char>) -> bool {
    host == "bcbits.com"@ || has_suffix(host, ".bcbits.com"@)
}

pub fn valid_bcbits_host(host: &[char]) -> (valid: bool)
    ensures
        valid == spec_valid_bcbits_host(host@),
{
    seq_equal(host, chars_of("bcbits.com").as_slice()) || ends_with(
        host,
        chars_of(".bcbits.com").as_slice(),
    )
}

/// A required, non-empty string of at most `limit` bytes.
pub open spec fn spec_bounded_string(value: Option<Seq<char>>, limit: int) -> Option<Seq<char>> {
    match value {
        Some(v) => if v.len() > 0 && utf8_len(v) <= limit {
            Some(v)
        } else {
            None
        },
        None => None,
    }
}

pub fn bounded_string(value: Option<&str>, limit: usize) -> (result: Result<String, BandcampError>)
    ensures
        match spec_bounded_string(
            match value {
                Some(v) => Some(v@),
                None => None,
            },
            limit as int,
        ) {
            Some(s) => result matches Ok(r) && r@ == s,
            None => result matches Err(e) && e.spec_kind() == BandcampErrorKind::InvalidResponse,
        },
{
    let v = match value {
        Some(v) => v,
        None => {
            return Err(invalid_response());
        },
    };
    let chars = chars_of(v);
    if chars.len() > 0 && utf8_length(chars.as_slice()) <= limit {
        Ok(string_from_chars(chars.as_slice()))
    } else {
        Err(invalid_response())
    }
}

/// The `mp3-128` playback URL of a track, when the page gives one: bounded, without user
/// information or fragment, and HTTPS on a `bcbits.com` host unless private-network HTTP is
/// allowed.
pub open spec fn spec_parse_playback(mp3_128: Option<Seq<char>>, options: BandcampSourceOptions) -> Result<
    Option<Seq<char>>,
    BandcampErrorKind,
> {
    match mp3_128 {
        None => Ok(None),
        Some(raw) => match spec_bounded_string(Some(raw), options.max_playback_url_bytes as int) {
            None => Err(BandcampErrorKind::InvalidResponse),
            Some(url) => match crate::uri::parsed_uri(url) {
                None => Err(BandcampErrorKind::InvalidResponse),
                Some(u) => if u.authority is None {
                    Err(BandcampErrorKind::InvalidResponse)
                } else {
                    let valid_scheme = match options.playback_scheme {
                        BandcampPlaybackScheme::Https => u.scheme == Some("https"@) && match u.host {
                            Some(h) => spec_valid_bcbits_host(h),
                            None => false,
                        },
                        BandcampPlaybackScheme::HttpForPrivateNetworks => u.scheme == Some(
                            "http"@,
                        ) || u.scheme == Some("https"@),
                    };
                    if !valid_scheme || contains_char(u.authority->0, '@') || contains_char(
                        url,
                        '#',
                    ) {
                        Err(BandcampErrorKind::InvalidResponse)
                    } else {
                        Ok(Some(url))
                    }
                },
            },
        },
    }
}

pub fn parse_playback(mp3_128: Option<&str>, options: &BandcampSourceOptions) -> (result: Result<
    Option<BandcampPlaybackUrl>,
    BandcampError,
>)
    ensures
        match spec_parse_playback(
            match mp3_128 {
                Some(v) => Some(v@),
                None => None,
            },
            *options,
        ) {
            Ok(None) => result matches Ok(None),
            Ok(Some(u)) => result matches Ok(Some(p)) && p.spec_url() == u,
            Err(k) => result matches Err(e) && e.spec_kind() == k,
        },
{
    let raw = match mp3_128 {
        Some(r) => r,
        None => {
            return Ok(None);
        },
    };
    let url = bounded_string(Some(raw), options.max_playback_url_bytes)?;
    let text = chars_of(url.as_str());
    let uri = match parse_uri(text.as_slice()) {
        Some(u) => u,
        None => {
            return Err(invalid_response());
        },
    };
    let authority = match &uri.authority {
        Some(a) => a,
        None => {
            return Err(invalid_response());
        },
    };
    let valid_scheme = match options.playback_scheme {
        BandcampPlaybackScheme::Https => opt_seq_is(&uri.scheme, "https") && match &uri.host {
            Some(h) => valid_bcbits_host(h.as_slice()),
            None => false,
        },
        BandcampPlaybackScheme::HttpForPrivateNetworks => opt_seq_is(&uri.scheme, "http")
            || opt_seq_is(&uri.scheme, "https"),
    };
    if !valid_scheme || contains(authority.as_slice(), '@') || contains(text.as_slice(), '#') {
        return Err(invalid_response());
    }
    Ok(Some(BandcampPlaybackUrl { url }))
}

// ---------------------------------------------------------------------------------------------
// Manager state
// ---------------------------------------------------------------------------------------------

/// The policy and lifecycle state of a Bandcamp source.
pub struct BandcampSourceManager {
    options: BandcampSourceOptions,
    shutdown: bool,
}

impl BandcampSourceManager {
    pub closed spec fn spec_options(&self) -> BandcampSourceOptions {
        self.options
    }

    pub closed spec fn is_shut_down(&self) -> bool {
        self.shutdown
    }

    /// Creates a manager after validating all page, parser, and media URL bounds; the HTTP
    /// policy is validated against the transport's redirect and retry ceilings.
    pub fn new(options: BandcampSourceOptions, redirect_ceiling: u32, retry_ceiling: u32) -> (result:
        Result<Self, BandcampError>)
        ensures
            options.is_valid() && options.http.is_valid(redirect_ceiling, retry_ceiling) ==> (
            result matches Ok(m) && m.spec_options() == options && !m.is_shut_down()),
            !(options.is_valid() && options.http.is_valid(redirect_ceiling, retry_ceiling)) ==> (
            result matches Err(e) && e.spec_kind() == BandcampErrorKind::InvalidOptions),
    {
        options.validate()?;
        if options.http.validate(redirect_ceiling, retry_ceiling).is_err() {
            return Err(BandcampError::new(BandcampErrorKind::InvalidOptions));
        }
        Ok(BandcampSourceManager { options, shutdown: false })
    }

    pub fn source_name(&self) -> (name: &'static str)
        ensures
            name == "bandcamp",
    {
        "bandcamp"
    }

    pub fn ensure_active(&self, cancelled: bool) -> (result: Result<(), BandcampError>)
        ensures
            self.is_shut_down() ==> (result matches Err(e) && e.spec_kind()
                == BandcampErrorKind::Shutdown),
            !self.is_shut_down() && cancelled ==> (result matches Err(e) && e.spec_kind()
                == BandcampErrorKind::Cancelled),
            !self.is_shut_down() && !cancelled ==> result is Ok,
    {
        if self.shutdown {
            return Err(BandcampError::new(BandcampErrorKind::Shutdown));
        }
        if cancelled {
            return Err(BandcampError::new(BandcampErrorKind::Cancelled));
        }
        Ok(())
    }

    /// Stops the manager; every later load fails as shut down.
    pub fn shutdown(&mut self)
        ensures
            final(self).is_shut_down(),
            final(self).spec_options() == old(self).spec_options(),
    {
        self.shutdown = true;
    }
}

// ---------------------------------------------------------------------------------------------
// Pages
// ---------------------------------------------------------------------------------------------

/// A Bandcamp track.
#[derive(PartialEq, Eq)]
pub struct BandcampSourceTrack {
    pub info: crate::track::TrackInfo,
    pub playback: Option<BandcampPlaybackUrl>,
}

/// A Bandcamp album.
#[derive(PartialEq, Eq)]
pub struct BandcampSourcePlaylist {
    pub name: String,
    pub tracks: Vec<BandcampSourceTrack>,
    pub selected_track: Option<usize>,
    pub is_search_result: bool,
    pub uri: Option<String>,
    pub artwork_url: Option<String>,
    pub author: Option<String>,
}

/// A track or an album.
#[derive(PartialEq, Eq)]
pub enum BandcampSourceItem {
    Track(BandcampSourceTrack),
    Playlist(BandcampSourcePlaylist),
}

/// A track as seen by contracts: its description and its playback URL.
pub struct BandcampTrackView {
    pub info: crate::track::TrackInfoView,
    pub playback: Option<Seq<char>>,
}

pub open spec fn playback_view(p: Option<BandcampPlaybackUrl>) -> Option<Seq<char>> {
    match p {
        Some(u) => Some(u.spec_url()),
        None => None,
    }
}

impl View for BandcampSourceTrack {
    type V = BandcampTrackView;

    open spec fn view(&self) -> BandcampTrackView {
        BandcampTrackView { info: self.info@, playback: playback_view(self.playback) }
    }
}

pub open spec fn bandcamp_tracks_view(v: Seq<BandcampSourceTrack>) -> Seq<BandcampTrackView> {
    v.map_values(|t: BandcampSourceTrack| t@)
}

/// The `art_id` of a page: absent, a number, a text, or another JSON value.
#[derive(Clone, Debug, PartialEq, Eq)]
pub enum BandcampArtId {
    Absent,
    Number(u64),
    Text(String),
    Other,
}

/// `id` left-padded with zeros to ten characters.
pub open spec fn zero_pad(id: Seq<char>) -> Seq<char> {
    if id.len() >= 10 {
        id
    } else {
        Seq::new((10 - id.len()) as nat, |i: int| '0') + id
    }
}

pub open spec fn artwork_id(art: BandcampArtId) -> Option<Seq<char>> {
    match art {
        BandcampArtId::Absent => None,
        BandcampArtId::Number(n) => Some(crate::track::decimal_text(n as nat)),
        BandcampArtId::Text(t) => Some(t@),
        BandcampArtId::Other => None,
    }
}

/// The artwork of a page: none without an `art_id`; otherwise the identifier (a number, or a
/// text of 1 to 20 ASCII digits) names a PNG on `f4.bcbits.com`, within the metadata limit.
pub open spec fn spec_parse_artwork(art: BandcampArtId, max: int) -> Option<Option<Seq<char>>> {
    if art is Absent {
        Some(None)
    } else {
        match artwork_id(art) {
            None => None,
            Some(id) => if id.len() == 0 || id.len() > 20 || !crate::text::all_digits(id) {
                None
            } else {
                let url = "https://f4.bcbits.com/img/a"@ + zero_pad(id) + "_1.png"@;
                if utf8_len(url) > max {
                    None
                } else {
                    Some(Some(url))
                }
            },
        }
    }
}

fn push_text(out: &mut Vec<char>, text: &[char])
    ensures
        final(out)@ == old(out)@ + text@,
{
    let mut i: usize = 0;
    while i < text.len()
        invariant
            i <= text@.len(),
            out@ == old(out)@ + text@.take(i as int),
        decreases text@.len() - i,
    {
        out.push(text[i]);
        proof {
            assert(text@.take(i + 1) =~= text@.take(i as int).push(text@[i as int]));
        }
        i = i + 1;
    }
    proof {
        assert(text@.take(i as int) =~= text@);
    }
}

pub fn parse_artwork(art: &BandcampArtId, max: usize) -> (result: Result<Option<String>, BandcampError>)
    ensures
        match spec_parse_artwork(*art, max as int) {
            Some(a) => result matches Ok(r) && crate::track::opt_text(r) == a,
            None => result matches Err(e) && e.spec_kind() == BandcampErrorKind::InvalidResponse,
        },
{
    let id: Vec<char> = match art {
        BandcampArtId::Absent => {
            return Ok(None);
        },
        BandcampArtId::Number(n) => chars_of(crate::track::decimal_string(*n).as_str()),
        BandcampArtId::Text(t) => chars_of(t.as_str()),
        BandcampArtId::Other => {
            return Err(invalid_response());
        },
    };
    if id.len() == 0 || id.len() > 20 || !crate::text::all_digit_chars(id.as_slice()) {
        return Err(invalid_response());
    }
    let mut url: Vec<char> = chars_of("https://f4.bcbits.com/img/a");
    let ghost prefix = url@;
    let mut k: usize = id.len();
    while k < 10
        invariant
            id@.len() <= k <= 10 || (k == id@.len() && k >= 10),
            url@ == prefix + Seq::new((k - id@.len()) as nat, |i: int| '0'),
        decreases 10 - k,
    {
        url.push('0');
        proof {
            assert(url@ =~= prefix + Seq::new((k + 1 - id@.len()) as nat, |i: int| '0'));
        }
        k = k + 1;
    }
    let ghost padded_zeros = url@;
    push_text(&mut url, id.as_slice());
    push_text(&mut url, chars_of("_1.png").as_slice());
    proof {
        if id@.len() >= 10 {
            assert(url@ =~= prefix + zero_pad(id@) + "_1.png"@);
        } else {
            assert(url@ =~= prefix + zero_pad(id@) + "_1.png"@);
        }
    }
    if utf8_length(url.as_slice()) > max {
        return Err(invalid_response());
    }
    Ok(Some(string_from_chars(url.as_slice())))
}

/// The `https` origin of a page URL: its authority's host.
pub open spec fn spec_page_base(url: Seq<char>) -> Option<Seq<char>> {
    match crate::uri::parsed_uri(url) {
        Some(u) => match (u.authority, u.host) {
            (Some(_), Some(h)) => Some("https://"@ + h),
            _ => None,
        },
        None => None,
    }
}

pub fn page_base(url: &str) -> (result: Result<String, BandcampError>)
    ensures
        match spec_page_base(url@) {
            Some(b) => result matches Ok(r) && r@ == b,
            None => result matches Err(e) && e.spec_kind() == BandcampErrorKind::InvalidResponse,
        },
{
    let uri = match parse_uri(chars_of(url).as_slice()) {
        Some(u) => u,
        None => {
            return Err(invalid_response());
        },
    };
    match (&uri.authority, &uri.host) {
        (Some(_), Some(h)) => {
            let mut out = chars_of("https://");
            push_text(&mut out, h.as_slice());
            Ok(string_from_chars(out.as_slice()))
        },
        _ => Err(invalid_response()),
    }
}

/// An optional string that, when present, is non-empty and within `limit` bytes.
pub open spec fn spec_bounded_optional(value: Option<Seq<char>>, limit: int) -> Option<Option<Seq<char>>> {
    match value {
        None => Some(None),
        Some(v) => match spec_bounded_string(Some(v), limit) {
            Some(x) => Some(Some(x)),
            None => None,
        },
    }
}

pub fn bounded_optional_string(value: Option<&str>, limit: usize) -> (result: Result<
    Option<String>,
    BandcampError,
>)
    ensures
        match spec_bounded_optional(
            match value {
                Some(v) => Some(v@),
                None => None,
            },
            limit as int,
        ) {
            Some(x) => result matches Ok(r) && crate::track::opt_text(r) == x,
            None => result matches Err(e) && e.spec_kind() == BandcampErrorKind::InvalidResponse,
        },
{
    match value {
        None => Ok(None),
        Some(v) => Ok(Some(bounded_string(Some(v), limit)?)),
    }
}

/// One entry of a page's `trackinfo`: its title, artist, duration (absent when it is not a
/// non-negative number of seconds that a duration can hold), `title_link` and `mp3-128` URL.
#[derive(Clone, Debug, PartialEq, Eq)]
pub struct BandcampTrackData {
    pub title: Option<String>,
    pub artist: Option<String>,
    pub duration: Option<Duration>,
    pub title_link: Option<String>,
    pub mp3_128: Option<String>,
}

pub open spec fn opt_str(value: Option<String>) -> Option<Seq<char>> {
    crate::track::opt_text(value)
}

/// A track entry: a bounded title; its own bounded artist or the page artist; a duration
/// within the track limit; a bounded `/track/<slug>` link which, appended to the page base,
/// is the track's identifier and URI within the identifier limit; a valid playback URL.
pub open spec fn spec_parse_track(
    data: BandcampTrackData,
    page_base: Seq<char>,
    page_artist: Seq<char>,
    artwork_url: Option<Seq<char>>,
    page_isrc: Option<Seq<char>>,
    options: BandcampSourceOptions,
) -> Option<BandcampTrackView> {
    let meta = options.max_metadata_string_bytes as int;
    let ident = options.max_identifier_bytes as int;
    match spec_bounded_string(opt_str(data.title), meta) {
        None => None,
        Some(title) => {
            let author = match data.artist {
                Some(a) => spec_bounded_string(Some(a@), meta),
                None => Some(page_artist),
            };
            match (author, data.duration) {
                (Some(author), Some(d)) => if d@ > options.max_track_duration@ {
                    None
                } else {
                    match spec_bounded_string(opt_str(data.title_link), ident) {
                        None => None,
                        Some(link) => if !has_prefix(link, "/track/"@) || !spec_valid_slug(
                            link.skip(7),
                        ) || contains_char(link.skip(7), '/') {
                            None
                        } else {
                            let uri = page_base + link;
                            if utf8_len(uri) > ident {
                                None
                            } else {
                                match spec_parse_playback(opt_str(data.mp3_128), options) {
                                    Ok(playback) => Some(
                                        BandcampTrackView {
                                            info: crate::track::TrackInfoView {
                                                title,
                                                author,
                                                duration: d@,
                                                identifier: uri,
                                                is_stream: false,
                                                uri: Some(uri),
                                                artwork_url,
                                                isrc: page_isrc,
                                            },
                                            playback,
                                        },
                                    ),
                                    Err(_) => None,
                                }
                            }
                        },
                    }
                },
                _ => None,
            }
        },
    }
}

fn opt_as_str(value: &Option<String>) -> (result: Option<&str>)
    ensures
        match result {
            Some(r) => opt_str(*value) == Some(r@),
            None => value is None,
        },
{
    match value {
        Some(v) => Some(v.as_str()),
        None => None,
    }
}

pub fn parse_track(
    data: &BandcampTrackData,
    page_base: &str,
    page_artist: &str,
    artwork_url: &Option<String>,
    page_isrc: &Option<String>,
    options: &BandcampSourceOptions,
) -> (result: Result<BandcampSourceTrack, BandcampError>)
    ensures
        match spec_parse_track(
            *data,
            page_base@,
            page_artist@,
            opt_str(*artwork_url),
            opt_str(*page_isrc),
            *options,
        ) {
            Some(t) => result matches Ok(r) && r@ == t,
            None => result matches Err(e) && e.spec_kind() == BandcampErrorKind::InvalidResponse,
        },
{
    proof {
        reveal_strlit("/track/");
    }
    let meta = options.max_metadata_string_bytes;
    let ident = options.max_identifier_bytes;
    let title = bounded_string(opt_as_str(&data.title), meta)?;
    let author = match &data.artist {
        Some(a) => bounded_string(Some(a.as_str()), meta)?,
        None => crate::track::copy_text(page_artist),
    };
    let duration = match data.duration {
        Some(d) => d,
        None => {
            return Err(invalid_response());
        },
    };
    if !duration.at_most(&options.max_track_duration) {
        return Err(invalid_response());
    }
    let link = bounded_string(opt_as_str(&data.title_link), ident)?;
    let link_chars = chars_of(link.as_str());
    if !crate::text::starts_with(link_chars.as_slice(), chars_of("/track/").as_slice()) {
        return Err(invalid_response());
    }
    let slug = copy_range(link_chars.as_slice(), 7, link_chars.len());
    proof {
        assert(slug@ =~= link@.skip(7));
    }
    if !valid_slug(slug.as_slice()) || contains(slug.as_slice(), '/') {
        return Err(invalid_response());
    }
    let mut uri = chars_of(page_base);
    push_text(&mut uri, link_chars.as_slice());
    if utf8_length(uri.as_slice()) > ident {
        return Err(invalid_response());
    }
    let playback = parse_playback(opt_as_str(&data.mp3_128), options)?;
    let identifier = string_from_chars(uri.as_slice());
    Ok(
        BandcampSourceTrack {
            info: crate::track::TrackInfo {
                title,
                author,
                duration,
                identifier,
                is_stream: false,
                uri: Some(string_from_chars(uri.as_slice())),
                artwork_url: crate::track::copy_opt_text(artwork_url),
                isrc: crate::track::copy_opt_text(page_isrc),
            },
            playback,
        },
    )
}

/// The fields of a page's embedded `data-tralbum` document that a page load reads: the
/// top-level `item_type` and the `current` object's `type` (each when a string), `artist`,
/// `art_id`, the `trackinfo` array (when an array), and `current.isrc` and `current.title`.
#[derive(Clone, Debug, PartialEq, Eq)]
pub struct BandcampPageData {
    pub item_type: Option<String>,
    pub current_type: Option<String>,
    pub artist: Option<String>,
    pub art_id: BandcampArtId,
    pub trackinfo: Option<Vec<BandcampTrackData>>,
    pub current_isrc: Option<String>,
    pub current_title: Option<String>,
}

/// The tracks of page entries, in order; `None` when any entry is invalid.
pub open spec fn page_tracks_fold(
    acc: Seq<BandcampTrackView>,
    entries: Seq<BandcampTrackData>,
    page_base: Seq<char>,
    artist: Seq<char>,
    artwork_url: Option<Seq<char>>,
    isrc: Option<Seq<char>>,
    options: BandcampSourceOptions,
) -> Option<Seq<BandcampTrackView>>
    decreases entries.len(),
{
    if entries.len() == 0 {
        Some(acc)
    } else {
        match spec_parse_track(entries[0], page_base, artist, artwork_url, isrc, options) {
            None => None,
            Some(t) => page_tracks_fold(
                acc.push(t),
                entries.drop_first(),
                page_base,
                artist,
                artwork_url,
                isrc,
                options,
            ),
        }
    }
}

pub struct BandcampPlaylistView {
    pub name: Seq<char>,
    pub tracks: Seq<BandcampTrackView>,
    pub selected_track: Option<usize>,
    pub is_search_result: bool,
    pub uri: Option<Seq<char>>,
    pub artwork_url: Option<Seq<char>>,
    pub author: Option<Seq<char>>,
}

pub enum BandcampItemView {
    Track(BandcampTrackView),
    Playlist(BandcampPlaylistView),
}

impl View for BandcampSourceItem {
    type V = BandcampItemView;

    open spec fn view(&self) -> BandcampItemView {
        match self {
            BandcampSourceItem::Track(t) => BandcampItemView::Track(t@),
            BandcampSourceItem::Playlist(p) => BandcampItemView::Playlist(
                BandcampPlaylistView {
                    name: p.name@,
                    tracks: bandcamp_tracks_view(p.tracks@),
                    selected_track: p.selected_track,
                    is_search_result: p.is_search_result,
                    uri: opt_str(p.uri),
                    artwork_url: opt_str(p.artwork_url),
                    author: opt_str(p.author),
                },
            ),
        }
    }
}

pub open spec fn route_url(route: BandcampRouteView) -> Seq<char> {
    match route {
        BandcampRouteView::Track(u) => u,
        BandcampRouteView::Album(u) => u,
    }
}

/// A page load: the page's item type must match the route; a bounded artist, valid artwork,
/// and one track entry for a track page or 1 to the collection limit for an album; a track page
/// takes its optional bounded ISRC; an album needs a bounded title and becomes a playlist at the
/// route's URL, authored by the artist.
pub open spec fn spec_parse_page(
    data: BandcampPageData,
    route: BandcampRouteView,
    options: BandcampSourceOptions,
) -> Option<BandcampItemView> {
    let meta = options.max_metadata_string_bytes as int;
    let expected = match route {
        BandcampRouteView::Track(_) => "track"@,
        BandcampRouteView::Album(_) => "album"@,
    };
    let item_type = match data.item_type {
        Some(t) => Some(t@),
        None => opt_str(data.current_type),
    };
    if item_type != Some(expected) {
        None
    } else {
        match (spec_bounded_string(opt_str(data.artist), meta), spec_parse_artwork(data.art_id, meta)) {
            (Some(artist), Some(artwork)) => match data.trackinfo {
                None => None,
                Some(list) => if list@.len() == 0 || list@.len() > options.max_collection_tracks
                    || (route is Track && list@.len() != 1) {
                    None
                } else {
                    let isrc = if route is Track {
                        spec_bounded_optional(opt_str(data.current_isrc), meta)
                    } else {
                        Some(None)
                    };
                    match (spec_page_base(route_url(route)), isrc) {
                        (Some(base), Some(isrc)) => match page_tracks_fold(
                            Seq::empty(),
                            list@,
                            base,
                            artist,
                            artwork,
                            isrc,
                            options,
                        ) {
                            None => None,
                            Some(tracks) => match route {
                                BandcampRouteView::Track(_) => Some(
                                    BandcampItemView::Track(tracks[0]),
                                ),
                                BandcampRouteView::Album(url) => match spec_bounded_string(
                                    opt_str(data.current_title),
                                    meta,
                                ) {
                                    None => None,
                                    Some(name) => Some(
                                        BandcampItemView::Playlist(
                                            BandcampPlaylistView {
                                                name,
                                                tracks,
                                                selected_track: None,
                                                is_search_result: false,
                                                uri: Some(url),
                                                artwork_url: artwork,
                                                author: Some(artist),
                                            },
                                        ),
                                    ),
                                },
                            },
                        },
                        _ => None,
                    }
                },
            },
            _ => None,
        }
    }
}

/// Reads a track or album page from its embedded document.
pub fn parse_page(data: &BandcampPageData, route: &BandcampRoute, options: &BandcampSourceOptions) -> (result:
    Result<BandcampSourceItem, BandcampError>)
    ensures
        match spec_parse_page(*data, route@, *options) {
            Some(item) => result matches Ok(r) && r@ == item,
            None => result matches Err(e) && e.spec_kind() == BandcampErrorKind::InvalidResponse,
        },
{
    proof {
        reveal_strlit("track");
        reveal_strlit("album");
    }
    let meta = options.max_metadata_string_bytes;
    let is_track = match route {
        BandcampRoute::Track(_) => true,
        BandcampRoute::Album(_) => false,
    };
    let expected = if is_track {
        "track"
    } else {
        "album"
    };
    let item_type = match &data.item_type {
        Some(t) => t.as_str(),
        None => match &data.current_type {
            Some(t) => t.as_str(),
            None => {
                return Err(invalid_response());
            },
        },
    };
    if !seq_equal(chars_of(item_type).as_slice(), chars_of(expected).as_slice()) {
        return Err(invalid_response());
    }
    let artist = bounded_string(opt_as_str(&data.artist), meta)?;
    let artwork_url = parse_artwork(&data.art_id, meta)?;
    let list = match &data.trackinfo {
        Some(l) => l,
        None => {
            return Err(invalid_response());
        },
    };
    if list.len() == 0 || list.len() > options.max_collection_tracks || (is_track && list.len() != 1) {
        return Err(invalid_response());
    }
    let base = page_base(route.url())?;
    let isrc = if is_track {
        bounded_optional_string(opt_as_str(&data.current_isrc), meta)?
    } else {
        None
    };
    let mut tracks: Vec<BandcampSourceTrack> = Vec::new();
    let mut i: usize = 0;
    proof {
        assert(list@.skip(0) =~= list@);
        assert(bandcamp_tracks_view(tracks@) =~= Seq::<BandcampTrackView>::empty());
    }
    let ghost expected_view = expected@;
    while i < list.len()
        invariant
            i <= list@.len(),
            tracks@.len() == i,
            is_track == route@ is Track,
            meta == options.max_metadata_string_bytes,
            expected_view == (if is_track {
                "track"@
            } else {
                "album"@
            }),
            (match data.item_type {
                Some(t) => Some(t@),
                None => opt_str(data.current_type),
            }) == Some(expected_view),
            spec_bounded_string(opt_str(data.artist), meta as int) == Some(artist@),
            spec_parse_artwork(data.art_id, meta as int) == Some(opt_str(artwork_url)),
            data.trackinfo == Some(*list),
            list@.len() > 0,
            list@.len() <= options.max_collection_tracks,
            is_track ==> list@.len() == 1,
            spec_page_base(route_url(route@)) == Some(base@),
            (if is_track {
                spec_bounded_optional(opt_str(data.current_isrc), meta as int)
            } else {
                Some(None)
            }) == Some(opt_str(isrc)),
            page_tracks_fold(
                Seq::empty(),
                list@,
                base@,
                artist@,
                opt_str(artwork_url),
                opt_str(isrc),
                *options,
            ) == page_tracks_fold(
                bandcamp_tracks_view(tracks@),
                list@.skip(i as int),
                base@,
                artist@,
                opt_str(artwork_url),
                opt_str(isrc),
                *options,
            ),
        decreases list@.len() - i,
    {
        proof {
            assert(list@.skip(i as int)[0] == list@[i as int]);
            assert(list@.skip(i as int).drop_first() =~= list@.skip(i + 1));
        }
        let t = parse_track(&list[i], base.as_str(), artist.as_str(), &artwork_url, &isrc, options)?;
        let ghost before = bandcamp_tracks_view(tracks@);
        let ghost added = t@;
        tracks.push(t);
        proof {
            assert(bandcamp_tracks_view(tracks@) =~= before.push(added));
        }
        i = i + 1;
    }
    proof {
        assert(list@.skip(i as int) =~= Seq::<BandcampTrackData>::empty());
    }
    match route {
        BandcampRoute::Track(_) => {
            let first = tracks.remove(0);
            Ok(BandcampSourceItem::Track(first))
        },
        BandcampRoute::Album(url) => {
            let name = bounded_string(opt_as_str(&data.current_title), meta)?;
            Ok(
                BandcampSourceItem::Playlist(
                    BandcampSourcePlaylist {
                        name,
                        tracks,
                        selected_track: None,
                        is_search_result: false,
                        uri: Some(crate::track::copy_text(url.as_str())),
                        artwork_url,
                        author: Some(artist),
                    },
                ),
            )
        },
    }
}

/// Only MP3 in an MP3 container is playable.
pub fn check_playback_format(container: crate::media::Container, codec: crate::media::Codec) -> (result:
    Result<(), BandcampPlaybackError>)
    ensures
        container == crate::media::Container::Mp3 && codec == crate::media::Codec::Mp3
            ==> result is Ok,
        !(container == crate::media::Container::Mp3 && codec == crate::media::Codec::Mp3) ==> (
        result matches Err(e) && e.spec_kind() == BandcampPlaybackErrorKind::IncompatibleFormat),
{
    let mp3_codec = match codec {
        crate::media::Codec::Mp3 => true,
        _ => false,
    };
    let mp3_container = match container {
        crate::media::Container::Mp3 => true,
        _ => false,
    };
    if !mp3_container || !mp3_codec {
        return Err(BandcampPlaybackError::new(BandcampPlaybackErrorKind::IncompatibleFormat));
    }
    Ok(())
}

/// The track of a loaded page: an album where a track was expected is an invalid response.
pub fn expect_track(item: Option<BandcampSourceItem>) -> (result: Result<
    Option<BandcampSourceTrack>,
    BandcampError,
>)
    ensures
        match item {
            None => result matches Ok(None),
            Some(BandcampSourceItem::Track(t)) => result matches Ok(Some(r)) && r == t,
            Some(BandcampSourceItem::Playlist(_)) => result matches Err(e) && e.spec_kind()
                == BandcampErrorKind::InvalidResponse,
        },
{
    match item {
        None => Ok(None),
        Some(BandcampSourceItem::Track(t)) => Ok(Some(t)),
        Some(BandcampSourceItem::Playlist(_)) => Err(invalid_response()),
    }
}

/// The page URL with its origin replaced by the override, when one is configured.
pub open spec fn spec_page_endpoint(canonical: Seq<char>, options: BandcampSourceOptions) -> Option<
    Seq<char>,
> {
    match options.page_origin_override {
        None => Some(canonical),
        Some(origin) => match crate::uri::parsed_uri(canonical) {
            None => None,
            Some(u) => Some(crate::soundcloud::trim_end_slashes(origin@) + u.path),
        },
    }
}

impl BandcampSourceManager {
    /// The URL a page is fetched from.
    pub fn page_endpoint(&self, canonical_url: &str) -> (result: Result<String, BandcampError>)
        ensures
            match spec_page_endpoint(canonical_url@, self.spec_options()) {
                Some(e) => result matches Ok(r) && r@ == e,
                None => result matches Err(e) && e.spec_kind()
                    == BandcampErrorKind::InvalidResponse,
            },
    {
        match &self.options.page_origin_override {
            None => Ok(crate::track::copy_text(canonical_url)),
            Some(origin) => {
                let uri = match parse_uri(chars_of(canonical_url).as_slice()) {
                    Some(u) => u,
                    None => {
                        return Err(invalid_response());
                    },
                };
                let mut out = crate::soundcloud::trim_end_slash_chars(
                    chars_of(origin.as_str()).as_slice(),
                );
                push_text(&mut out, uri.path.as_slice());
                Ok(string_from_chars(out.as_slice()))
            },
        }
    }

    /// The route of a track page load: the URL must route to a track page.
    pub fn track_route(&self, url: &str) -> (result: Result<BandcampRoute, BandcampError>)
        ensures
            match spec_route_bandcamp(url@, self.spec_options()) {
                Some(BandcampRouteView::Track(u)) => result matches Ok(r) && r@
                    == BandcampRouteView::Track(u),
                _ => result matches Err(e) && e.spec_kind() == BandcampErrorKind::UnsupportedRoute,
            },
    {
        match route_bandcamp_identifier(url, &self.options) {
            Some(BandcampRoute::Track(u)) => Ok(BandcampRoute::Track(u)),
            _ => Err(BandcampError::new(BandcampErrorKind::UnsupportedRoute)),
        }
    }

    /// The page that refreshes a track's playback: its identifier must route to a track page.
    pub fn playback_route(&self, track: &BandcampSourceTrack) -> (result: Result<
        BandcampRoute,
        BandcampError,
    >)
        ensures
            match spec_route_bandcamp(track.info.identifier@, self.spec_options()) {
                Some(BandcampRouteView::Track(u)) => result matches Ok(r) && r@
                    == BandcampRouteView::Track(u),
                _ => result matches Err(e) && e.spec_kind() == BandcampErrorKind::InvalidResponse,
            },
    {
        match route_bandcamp_identifier(track.info.identifier.as_str(), &self.options) {
            Some(BandcampRoute::Track(u)) => Ok(BandcampRoute::Track(u)),
            _ => Err(invalid_response()),
        }
    }

    /// Only tracks are stored.
    pub fn is_encodable(&self, item: &BandcampSourceItem) -> (encodable: bool)
        ensures
            encodable == item is Track,
    {
        match item {
            BandcampSourceItem::Track(_) => true,
            BandcampSourceItem::Playlist(_) => false,
        }
    }

    /// A stored track needs no payload; an album cannot be stored.
    pub fn encode(&self, item: &BandcampSourceItem) -> (result: Result<
        Vec<u8>,
        crate::source::SourceRegistryError,
    >)
        ensures
            item is Track ==> (result matches Ok(v) && v@.len() == 0),
            item is Playlist ==> result == Err::<Vec<u8>, crate::source::SourceRegistryError>(
                crate::source::SourceRegistryError::NotEncodable,
            ),
    {
        match item {
            BandcampSourceItem::Track(_) => Ok(Vec::new()),
            BandcampSourceItem::Playlist(_) => Err(
                crate::source::SourceRegistryError::NotEncodable,
            ),
        }
    }

    /// Rebuilds a stored track: the payload is empty and the identifier routes to a track page.
    pub fn decode_with_info(&self, info: &crate::track::TrackInfo, payload: &[u8]) -> (result:
        Result<BandcampSourceItem, crate::source::SourceRegistryError>)
        ensures
            payload@.len() == 0 && spec_route_bandcamp(info.identifier@, self.spec_options())
                is Some && spec_route_bandcamp(info.identifier@, self.spec_options())->0 is Track
                ==> (result matches Ok(BandcampSourceItem::Track(t)) && t.info@ == info@
                && t.playback is None),
            !(payload@.len() == 0 && spec_route_bandcamp(info.identifier@, self.spec_options())
                is Some && spec_route_bandcamp(info.identifier@, self.spec_options())->0 is Track)
                ==> result == Err::<BandcampSourceItem, crate::source::SourceRegistryError>(
                crate::source::SourceRegistryError::SourceFailure,
            ),
    {
        let routed = match route_bandcamp_identifier(info.identifier.as_str(), &self.options) {
            Some(BandcampRoute::Track(_)) => true,
            _ => false,
        };
        if payload.len() != 0 || !routed {
            return Err(crate::source::SourceRegistryError::SourceFailure);
        }
        Ok(BandcampSourceItem::Track(BandcampSourceTrack { info: info.duplicate(), playback: None }))
    }
}

} // verus!
