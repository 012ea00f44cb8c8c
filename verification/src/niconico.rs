use vstd::prelude::*;

use crate::bandcamp::{has_suffix, spec_bounded_string, trim_slashes};
use crate::duration::Duration;
use crate::http_policy::HttpNetworkAccess;
use crate::playlist::{contains_char, seq_equal};
use crate::remote_http::{RemoteHttpError, RemoteHttpErrorKind, RemoteHttpOptions};
use crate::route_util::{ascii_lowercase, contains, opt_seq_is, to_ascii_lowercase, utf8_len, utf8_length};
use crate::text::{
    all_digits, chars_of, copy_range, has_prefix, is_digit, split_once, split_once_chars,
    starts_with, string_from_chars,
};
use crate::uri::{parse_uri, UriView};

use cbc::cipher::block_padding::Pkcs7;
use cbc::cipher::{BlockModeDecrypt, KeyIvInit};

verus! {

pub const MAX_SESSION_BYTES: usize = 16 * 1024;

pub const MAX_CONFIGURED_IDENTIFIER_BYTES: usize = 64 * 1024;

pub const MAX_CONFIGURED_METADATA_STRING_BYTES: usize = 1024 * 1024;

pub const MAX_CONFIGURED_RESPONSE_BYTES: u64 = 64 * 1024 * 1024;

pub const MAX_CONFIGURED_FORMATS: usize = 10_000;

pub const MAX_CONFIGURED_PLAYLIST_BYTES: u64 = 16 * 1024 * 1024;

pub const MAX_CONFIGURED_PLAYLIST_LINE_BYTES: usize = 1024 * 1024;

pub const MAX_CONFIGURED_PLAYLIST_ENTRIES: usize = 100_000;

pub const MAX_CONFIGURED_MEDIA_RESOURCE_BYTES: u64 = 64 * 1024 * 1024;

pub const MAX_CONFIGURED_TOTAL_MEDIA_BYTES: u64 = 512 * 1024 * 1024;

// ---------------------------------------------------------------------------------------------
// Errors
// ---------------------------------------------------------------------------------------------

#[derive(Clone, Copy, Debug, PartialEq, Eq, Structural)]
pub enum NicoNicoErrorKind {
    InvalidOptions,
    InvalidAuthentication,
    Cancelled,
    Shutdown,
    Network,
    RateLimited,
    AuthenticationRequired,
    GeoRestricted,
    Unavailable,
    InvalidResponse,
    UnsupportedRoute,
}

#[derive(Clone, Copy, Debug, PartialEq, Eq, Structural)]
pub struct NicoNicoError {
    kind: NicoNicoErrorKind,
}

impl NicoNicoError {
    pub closed spec fn spec_kind(self) -> NicoNicoErrorKind {
        self.kind
    }

    pub fn new(kind: NicoNicoErrorKind) -> (error: Self)
        ensures
            error.spec_kind() == kind,
    {
        NicoNicoError { kind }
    }

    pub fn kind(self) -> (kind: NicoNicoErrorKind)
        ensures
            kind == self.spec_kind(),
    {
        self.kind
    }

    pub fn message(self) -> (text: &'static str)
        ensures
            text == (match self.spec_kind() {
                NicoNicoErrorKind::InvalidOptions => "invalid NicoNico source policy",
                NicoNicoErrorKind::InvalidAuthentication => "invalid NicoNico authentication policy",
                NicoNicoErrorKind::Cancelled => "NicoNico load cancelled",
                NicoNicoErrorKind::Shutdown => "NicoNico source is shut down",
                NicoNicoErrorKind::Network => "NicoNico request failed",
                NicoNicoErrorKind::RateLimited => "NicoNico rate limit reached",
                NicoNicoErrorKind::AuthenticationRequired => "NicoNico rejected authentication",
                NicoNicoErrorKind::GeoRestricted => "NicoNico media is unavailable in this region",
                NicoNicoErrorKind::Unavailable => "NicoNico content is unavailable",
                NicoNicoErrorKind::InvalidResponse => "NicoNico returned an invalid response",
                NicoNicoErrorKind::UnsupportedRoute => "NicoNico route is not implemented",
            }),
    {
        match self.kind {
            NicoNicoErrorKind::InvalidOptions => "invalid NicoNico source policy",
            NicoNicoErrorKind::InvalidAuthentication => "invalid NicoNico authentication policy",
            NicoNicoErrorKind::Cancelled => "NicoNico load cancelled",
            NicoNicoErrorKind::Shutdown => "NicoNico source is shut down",
            NicoNicoErrorKind::Network => "NicoNico request failed",
            NicoNicoErrorKind::RateLimited => "NicoNico rate limit reached",
            NicoNicoErrorKind::AuthenticationRequired => "NicoNico rejected authentication",
            NicoNicoErrorKind::GeoRestricted => "NicoNico media is unavailable in this region",
            NicoNicoErrorKind::Unavailable => "NicoNico content is unavailable",
            NicoNicoErrorKind::InvalidResponse => "NicoNico returned an invalid response",
            NicoNicoErrorKind::UnsupportedRoute => "NicoNico route is not implemented",
        }
    }
}

pub fn invalid_response() -> (error: NicoNicoError)
    ensures
        error.spec_kind() == NicoNicoErrorKind::InvalidResponse,
{
    NicoNicoError::new(NicoNicoErrorKind::InvalidResponse)
}

#[derive(Clone, Copy, Debug, PartialEq, Eq, Structural)]
pub enum NicoNicoPlaybackErrorKind {
    Source(NicoNicoErrorKind),
    InvalidOptions,
    Cancelled,
    Network,
    GeoRestricted,
    InvalidPlaylist,
    InvalidMedia,
    IncompatibleFormat,
}

#[derive(Clone, Copy, Debug, PartialEq, Eq, Structural)]
pub struct NicoNicoPlaybackError {
    kind: NicoNicoPlaybackErrorKind,
}

impl NicoNicoPlaybackError {
    pub closed spec fn spec_kind(self) -> NicoNicoPlaybackErrorKind {
        self.kind
    }

    pub fn new(kind: NicoNicoPlaybackErrorKind) -> (error: Self)
        ensures
            error.spec_kind() == kind,
    {
        NicoNicoPlaybackError { kind }
    }

    pub fn kind(self) -> (kind: NicoNicoPlaybackErrorKind)
        ensures
            kind == self.spec_kind(),
    {
        self.kind
    }

    pub fn message(self) -> (text: &'static str)
        ensures
            text == (match self.spec_kind() {
                NicoNicoPlaybackErrorKind::Source(_) => "NicoNico playback discovery failed",
                NicoNicoPlaybackErrorKind::InvalidOptions => "invalid NicoNico media policy",
                NicoNicoPlaybackErrorKind::Cancelled => "NicoNico playback cancelled",
                NicoNicoPlaybackErrorKind::Network => "NicoNico media request failed",
                NicoNicoPlaybackErrorKind::GeoRestricted => {
                    "NicoNico media is unavailable in this region"
                },
                NicoNicoPlaybackErrorKind::InvalidPlaylist => "NicoNico returned an invalid playlist",
                NicoNicoPlaybackErrorKind::InvalidMedia => "NicoNico returned invalid media",
                NicoNicoPlaybackErrorKind::IncompatibleFormat => {
                    "NicoNico playback is not supported AAC CMAF"
                },
            }),
    {
        match self.kind {
            NicoNicoPlaybackErrorKind::Source(_) => "NicoNico playback discovery failed",
            NicoNicoPlaybackErrorKind::InvalidOptions => "invalid NicoNico media policy",
            NicoNicoPlaybackErrorKind::Cancelled => "NicoNico playback cancelled",
            NicoNicoPlaybackErrorKind::Network => "NicoNico media request failed",
            NicoNicoPlaybackErrorKind::GeoRestricted => {
                "NicoNico media is unavailable in this region"
            },
            NicoNicoPlaybackErrorKind::InvalidPlaylist => "NicoNico returned an invalid playlist",
            NicoNicoPlaybackErrorKind::InvalidMedia => "NicoNico returned invalid media",
            NicoNicoPlaybackErrorKind::IncompatibleFormat => {
                "NicoNico playback is not supported AAC CMAF"
            },
        }
    }
}

pub fn invalid_playlist() -> (error: NicoNicoPlaybackError)
    ensures
        error.spec_kind() == NicoNicoPlaybackErrorKind::InvalidPlaylist,
{
    NicoNicoPlaybackError::new(NicoNicoPlaybackErrorKind::InvalidPlaylist)
}

/// How a failure of a control request (watch data or access rights) is reported.
pub open spec fn spec_map_remote_kind(kind: RemoteHttpErrorKind) -> NicoNicoErrorKind {
    match kind {
        RemoteHttpErrorKind::InvalidOptions | RemoteHttpErrorKind::InvalidRequest => {
            NicoNicoErrorKind::InvalidOptions
        },
        RemoteHttpErrorKind::Cancelled => NicoNicoErrorKind::Cancelled,
        RemoteHttpErrorKind::Unauthorized => NicoNicoErrorKind::AuthenticationRequired,
        RemoteHttpErrorKind::Forbidden => NicoNicoErrorKind::GeoRestricted,
        RemoteHttpErrorKind::NotFound => NicoNicoErrorKind::Unavailable,
        RemoteHttpErrorKind::RateLimited => NicoNicoErrorKind::RateLimited,
        RemoteHttpErrorKind::RequestTooLarge
        | RemoteHttpErrorKind::ResponseTooLarge
        | RemoteHttpErrorKind::InvalidResponse => NicoNicoErrorKind::InvalidResponse,
        _ => NicoNicoErrorKind::Network,
    }
}

pub fn map_remote_error(error: RemoteHttpError) -> (mapped: NicoNicoError)
    ensures
        mapped.spec_kind() == spec_map_remote_kind(error@.kind),
{
    let kind = match error.kind() {
        RemoteHttpErrorKind::InvalidOptions | RemoteHttpErrorKind::InvalidRequest => {
            NicoNicoErrorKind::InvalidOptions
        },
        RemoteHttpErrorKind::Cancelled => NicoNicoErrorKind::Cancelled,
        RemoteHttpErrorKind::Unauthorized => NicoNicoErrorKind::AuthenticationRequired,
        RemoteHttpErrorKind::Forbidden => NicoNicoErrorKind::GeoRestricted,
        RemoteHttpErrorKind::NotFound => NicoNicoErrorKind::Unavailable,
        RemoteHttpErrorKind::RateLimited => NicoNicoErrorKind::RateLimited,
        RemoteHttpErrorKind::RequestTooLarge
        | RemoteHttpErrorKind::ResponseTooLarge
        | RemoteHttpErrorKind::InvalidResponse => NicoNicoErrorKind::InvalidResponse,
        _ => NicoNicoErrorKind::Network,
    };
    NicoNicoError::new(kind)
}

/// How a failure of a media request (playlist, key or segment) is reported.
pub open spec fn spec_map_playback_remote_kind(kind: RemoteHttpErrorKind) -> NicoNicoPlaybackErrorKind {
    match kind {
        RemoteHttpErrorKind::InvalidOptions | RemoteHttpErrorKind::InvalidRequest => {
            NicoNicoPlaybackErrorKind::InvalidOptions
        },
        RemoteHttpErrorKind::Cancelled => NicoNicoPlaybackErrorKind::Cancelled,
        RemoteHttpErrorKind::RequestTooLarge
        | RemoteHttpErrorKind::ResponseTooLarge
        | RemoteHttpErrorKind::InvalidResponse => NicoNicoPlaybackErrorKind::InvalidPlaylist,
        RemoteHttpErrorKind::Forbidden => NicoNicoPlaybackErrorKind::GeoRestricted,
        _ => NicoNicoPlaybackErrorKind::Network,
    }
}

pub fn map_playback_remote_error(error: RemoteHttpError) -> (mapped: NicoNicoPlaybackError)
    ensures
        mapped.spec_kind() == spec_map_playback_remote_kind(error@.kind),
{
    let kind = match error.kind() {
        RemoteHttpErrorKind::InvalidOptions | RemoteHttpErrorKind::InvalidRequest => {
            NicoNicoPlaybackErrorKind::InvalidOptions
        },
        RemoteHttpErrorKind::Cancelled => NicoNicoPlaybackErrorKind::Cancelled,
        RemoteHttpErrorKind::RequestTooLarge
        | RemoteHttpErrorKind::ResponseTooLarge
        | RemoteHttpErrorKind::InvalidResponse => NicoNicoPlaybackErrorKind::InvalidPlaylist,
        RemoteHttpErrorKind::Forbidden => NicoNicoPlaybackErrorKind::GeoRestricted,
        _ => NicoNicoPlaybackErrorKind::Network,
    };
    NicoNicoPlaybackError::new(kind)
}

/// A discovery failure seen by playback: cancellation stays cancellation, every other failure
/// keeps its source kind.
pub fn map_playback_source_error(error: NicoNicoError) -> (mapped: NicoNicoPlaybackError)
    ensures
        error.spec_kind() == NicoNicoErrorKind::Cancelled ==> mapped.spec_kind()
            == NicoNicoPlaybackErrorKind::Cancelled,
        error.spec_kind() != NicoNicoErrorKind::Cancelled ==> mapped.spec_kind()
            == NicoNicoPlaybackErrorKind::Source(error.spec_kind()),
{
    let kind = if error.kind() == NicoNicoErrorKind::Cancelled {
        NicoNicoPlaybackErrorKind::Cancelled
    } else {
        NicoNicoPlaybackErrorKind::Source(error.kind())
    };
    NicoNicoPlaybackError::new(kind)
}

// ---------------------------------------------------------------------------------------------
// Routes
// ---------------------------------------------------------------------------------------------

/// A NicoNico video, by its identifier.
#[derive(Clone, Debug, PartialEq, Eq)]
pub struct NicoNicoRoute {
    pub video_id: String,
}

impl NicoNicoRoute {
    /// The watch page of the video.
    pub fn canonical_url(&self) -> (url: String)
        ensures
            url@ == "https://www.nicovideo.jp/watch/"@ + self.video_id@,
    {
        let mut out = chars_of("https://www.nicovideo.jp/watch/");
        let mut id = chars_of(self.video_id.as_str());
        let ghost head = out@;
        let ghost tail = id@;
        out.append(&mut id);
        proof {
            assert(out@ =~= head + tail);
        }
        string_from_chars(out.as_slice())
    }
}

pub open spec fn is_lower(c: char) -> bool {
    'a' <= c && c <= 'z'
}

/// A video identifier: 1 to 64 ASCII digits, or two lowercase ASCII letters followed by at least
/// one digit, at most 64 characters in all.
pub open spec fn spec_valid_video_id(value: Seq<char>) -> bool {
    &&& value.len() > 0
    &&& value.len() <= 64
    &&& (all_digits(value) || (value.len() >= 3 && is_lower(value[0]) && is_lower(value[1])
        && all_digits(value.skip(2))))
}

fn digits_from(value: &[char], start: usize) -> (result: bool)
    requires
        start <= value@.len(),
    ensures
        result == all_digits(value@.skip(start as int)),
{
    let mut i = start;
    while i < value.len()
        invariant
            start <= i <= value@.len(),
            forall|j: int| start <= j < i ==> is_digit(#[trigger] value@[j]),
        decreases value@.len() - i,
    {
        if !('0' <= value[i] && value[i] <= '9') {
            proof {
                assert(value@.skip(start as int)[i - start] == value@[i as int]);
            }
            return false;
        }
        i = i + 1;
    }
    proof {
        assert forall|k: int| 0 <= k < value@.skip(start as int).len() implies is_digit(
            #[trigger] value@.skip(start as int)[k],
        ) by {
            assert(value@.skip(start as int)[k] == value@[start + k]);
        }
    }
    true
}

pub fn valid_video_id(value: &[char]) -> (valid: bool)
    ensures
        valid == spec_valid_video_id(value@),
{
    if value.len() == 0 || value.len() > 64 {
        return false;
    }
    if digits_from(value, 0) {
        proof {
            assert(value@.skip(0) =~= value@);
        }
        return true;
    }
    proof {
        assert(value@.skip(0) =~= value@);
    }
    value.len() >= 3 && 'a' <= value[0] && value[0] <= 'z' && 'a' <= value[1] && value[1] <= 'z'
        && digits_from(value, 2)
}

/// The NicoNico hosts that watch pages are served from.
pub open spec fn niconico_host(host: Seq<char>) -> bool {
    host == "nicovideo.jp"@ || host == "www.nicovideo.jp"@ || host == "sp.nicovideo.jp"@ || host
        == "embed.nicovideo.jp"@
}

/// Accepts `https://<host>/watch/<id>` and `https://<host>/shorts/<id>` on a NicoNico host (scheme
/// optional, host case-insensitive), with a bounded identifier that holds no fragment.
pub open spec fn spec_route_niconico(identifier: Seq<char>, options: NicoNicoSourceOptions) -> Option<
    Seq<char>,
> {
    if identifier.len() == 0 || utf8_len(identifier) > options.max_identifier_bytes
        || contains_char(identifier, '#') {
        None
    } else {
        let normalized = if has_prefix(identifier, "http://"@) || has_prefix(
            identifier,
            "https://"@,
        ) {
            identifier
        } else {
            "https://"@ + identifier
        };
        match crate::uri::parsed_uri(normalized) {
            None => None,
            Some(u) => if !(u.scheme == Some("http"@) || u.scheme == Some("https"@))
                || u.authority is None || contains_char(u.authority->0, '@') || u.host
                != u.authority || !niconico_host(ascii_lowercase(u.host->0)) {
                None
            } else {
                match split_once(trim_slashes(u.path), '/') {
                    None => None,
                    Some((kind, id)) => if contains_char(id, '/') || !(kind == "watch"@ || kind
                        == "shorts"@) || !spec_valid_video_id(id) {
                        None
                    } else {
                        Some(id)
                    },
                }
            },
        }
    }
}

fn is_niconico_host(host: &[char]) -> (result: bool)
    ensures
        result == niconico_host(host@),
{
    seq_equal(host, chars_of("nicovideo.jp").as_slice()) || seq_equal(
        host,
        chars_of("www.nicovideo.jp").as_slice(),
    ) || seq_equal(host, chars_of("sp.nicovideo.jp").as_slice()) || seq_equal(
        host,
        chars_of("embed.nicovideo.jp").as_slice(),
    )
}

fn concat_chars(a: &[char], b: &[char]) -> (result: Vec<char>)
    ensures
        result@ == a@ + b@,
{
    let mut out = copy_range(a, 0, a.len());
    let mut tail = copy_range(b, 0, b.len());
    let ghost x = out@;
    let ghost y = tail@;
    out.append(&mut tail);
    proof {
        assert(a@.subrange(0, a@.len() as int) =~= a@);
        assert(b@.subrange(0, b@.len() as int) =~= b@);
        assert(out@ =~= x + y);
    }
    out
}

/// Routes a bounded identifier without network access.
pub fn route_niconico_identifier(identifier: &str, options: &NicoNicoSourceOptions) -> (route:
    Option<NicoNicoRoute>)
    ensures
        match spec_route_niconico(identifier@, *options) {
            Some(id) => route matches Some(r) && r.video_id@ == id,
            None => route is None,
        },
{
    let text = chars_of(identifier);
    if text.len() == 0 || utf8_length(text.as_slice()) > options.max_identifier_bytes || contains(
        text.as_slice(),
        '#',
    ) {
        return None;
    }
    let https = chars_of("https://");
    let normalized = if starts_with(text.as_slice(), chars_of("http://").as_slice()) || starts_with(
        text.as_slice(),
        https.as_slice(),
    ) {
        text
    } else {
        concat_chars(https.as_slice(), text.as_slice())
    };
    let uri = parse_uri(normalized.as_slice())?;
    if !(opt_seq_is(&uri.scheme, "http") || opt_seq_is(&uri.scheme, "https")) {
        return None;
    }
    let authority = match &uri.authority {
        Some(a) => a,
        None => {
            return None;
        },
    };
    if contains(authority.as_slice(), '@') {
        return None;
    }
    let raw_host = match &uri.host {
        Some(h) => h,
        None => {
            return None;
        },
    };
    if !seq_equal(raw_host.as_slice(), authority.as_slice()) {
        return None;
    }
    let host = to_ascii_lowercase(raw_host.as_slice());
    if !is_niconico_host(host.as_slice()) {
        return None;
    }
    let path = crate::bandcamp::trim_slash_chars(uri.path.as_slice());
    let (kind, id) = split_once_chars(path.as_slice(), '/')?;
    if contains(id.as_slice(), '/') || !(seq_equal(kind.as_slice(), chars_of("watch").as_slice())
        || seq_equal(kind.as_slice(), chars_of("shorts").as_slice())) || !valid_video_id(
        id.as_slice(),
    ) {
        return None;
    }
    Some(NicoNicoRoute { video_id: string_from_chars(id.as_slice()) })
}

} // verus!

verus! {

// ---------------------------------------------------------------------------------------------
// Authentication
// ---------------------------------------------------------------------------------------------

/// A visible ASCII character other than the cookie separators `;` and `,`.
pub open spec fn session_char(c: char) -> bool {
    '!' <= c && c <= '~' && c != ';' && c != ','
}

/// A `user_session` cookie value that can be sent in a header: 1 to 16 KiB of visible ASCII
/// without `;` or `,`.
pub open spec fn spec_valid_session(value: Seq<char>) -> bool {
    &&& value.len() > 0
    &&& value.len() <= MAX_SESSION_BYTES
    &&& forall|i: int| 0 <= i < value.len() ==> session_char(#[trigger] value[i])
}

/// An explicit `user_session` cookie value. No password or MFA login is automated, and the
/// value never appears in diagnostics.
#[derive(Clone, PartialEq, Eq)]
pub struct NicoNicoAuthentication {
    user_session: String,
}

impl NicoNicoAuthentication {
    pub closed spec fn spec_user_session(&self) -> Seq<char> {
        self.user_session@
    }

    /// Accepts a header-safe cookie value and fails with `InvalidAuthentication` on an empty,
    /// oversized or header-unsafe one.
    pub fn new_user_session(user_session: String) -> (result: Result<Self, NicoNicoError>)
        ensures
            spec_valid_session(user_session@) ==> (result matches Ok(a) && a.spec_user_session()
                == user_session@),
            !spec_valid_session(user_session@) ==> (result matches Err(e) && e.spec_kind()
                == NicoNicoErrorKind::InvalidAuthentication),
    {
        let chars = chars_of(user_session.as_str());
        if chars.len() == 0 || chars.len() > MAX_SESSION_BYTES {
            return Err(NicoNicoError::new(NicoNicoErrorKind::InvalidAuthentication));
        }
        let mut i: usize = 0;
        while i < chars.len()
            invariant
                i <= chars@.len(),
                chars@ == user_session@,
                forall|j: int| 0 <= j < i ==> session_char(#[trigger] chars@[j]),
            decreases chars@.len() - i,
        {
            let c = chars[i];
            if !('!' <= c && c <= '~' && c != ';' && c != ',') {
                return Err(NicoNicoError::new(NicoNicoErrorKind::InvalidAuthentication));
            }
            i = i + 1;
        }
        Ok(NicoNicoAuthentication { user_session })
    }
}

// ---------------------------------------------------------------------------------------------
// Options
// ---------------------------------------------------------------------------------------------

#[derive(Clone, Copy, Debug, PartialEq, Eq, Structural)]
pub enum NicoNicoPlaybackScheme {
    Https,
    /// Permit HTTP only alongside explicit private-network access for deterministic replay.
    HttpForPrivateNetworks,
}

/// Bounded control-API, metadata, playlist and media policy for NicoNico.
#[derive(Clone, Debug, PartialEq, Eq)]
pub struct NicoNicoSourceOptions {
    pub http: RemoteHttpOptions,
    pub watch_api_base_url: String,
    pub access_api_base_url: String,
    pub max_identifier_bytes: usize,
    pub max_metadata_string_bytes: usize,
    pub max_response_bytes: u64,
    pub max_formats: usize,
    pub max_playback_url_bytes: usize,
    pub max_playlist_bytes: u64,
    pub max_playlist_line_bytes: usize,
    pub max_playlist_entries: usize,
    pub max_media_resource_bytes: u64,
    pub max_total_media_bytes: u64,
    pub max_track_duration: Duration,
    pub playback_scheme: NicoNicoPlaybackScheme,
}

impl NicoNicoSourceOptions {
    pub fn default_options() -> (options: Self)
        ensures
            crate::remote_http::is_default_remote_options(options.http),
            options.watch_api_base_url@ == "https://www.nicovideo.jp/api/watch"@,
            options.access_api_base_url@ == "https://nvapi.nicovideo.jp/v1/watch"@,
            options.max_identifier_bytes == 8 * 1024,
            options.max_metadata_string_bytes == 64 * 1024,
            options.max_response_bytes == 8 * 1024 * 1024,
            options.max_formats == 128,
            options.max_playback_url_bytes == 64 * 1024,
            options.max_playlist_bytes == 2 * 1024 * 1024,
            options.max_playlist_line_bytes == 64 * 1024,
            options.max_playlist_entries == 20_000,
            options.max_media_resource_bytes == 8 * 1024 * 1024,
            options.max_total_media_bytes == 128 * 1024 * 1024,
            options.max_track_duration@ == 24 * 3600 * 1_000_000_000,
            options.playback_scheme == NicoNicoPlaybackScheme::Https,
    {
        NicoNicoSourceOptions {
            http: RemoteHttpOptions::default_options(),
            watch_api_base_url: string_from_chars(
                chars_of("https://www.nicovideo.jp/api/watch").as_slice(),
            ),
            access_api_base_url: string_from_chars(
                chars_of("https://nvapi.nicovideo.jp/v1/watch").as_slice(),
            ),
            max_identifier_bytes: 8 * 1024,
            max_metadata_string_bytes: 64 * 1024,
            max_response_bytes: 8 * 1024 * 1024,
            max_formats: 128,
            max_playback_url_bytes: 64 * 1024,
            max_playlist_bytes: 2 * 1024 * 1024,
            max_playlist_line_bytes: 64 * 1024,
            max_playlist_entries: 20_000,
            max_media_resource_bytes: 8 * 1024 * 1024,
            max_total_media_bytes: 128 * 1024 * 1024,
            max_track_duration: Duration::from_hours(24),
            playback_scheme: NicoNicoPlaybackScheme::Https,
        }
    }

    /// Every bound is non-zero and within its ceiling, and HTTP playback comes only with
    /// private-network access.
    pub open spec fn bounds_valid(&self) -> bool {
        &&& 0 < self.max_identifier_bytes <= MAX_CONFIGURED_IDENTIFIER_BYTES
        &&& 0 < self.max_metadata_string_bytes <= MAX_CONFIGURED_METADATA_STRING_BYTES
        &&& 0 < self.max_response_bytes <= MAX_CONFIGURED_RESPONSE_BYTES
        &&& self.max_response_bytes <= self.http.max_response_bytes
        &&& 0 < self.max_formats <= MAX_CONFIGURED_FORMATS
        &&& 0 < self.max_playback_url_bytes <= MAX_CONFIGURED_METADATA_STRING_BYTES
        &&& utf8_len(self.watch_api_base_url@) <= self.max_playback_url_bytes
        &&& utf8_len(self.access_api_base_url@) <= self.max_playback_url_bytes
        &&& 0 < self.max_playlist_bytes <= MAX_CONFIGURED_PLAYLIST_BYTES
        &&& self.max_playlist_bytes <= self.http.max_response_bytes
        &&& 0 < self.max_playlist_line_bytes <= MAX_CONFIGURED_PLAYLIST_LINE_BYTES
        &&& 0 < self.max_playlist_entries <= MAX_CONFIGURED_PLAYLIST_ENTRIES
        &&& 0 < self.max_media_resource_bytes <= MAX_CONFIGURED_MEDIA_RESOURCE_BYTES
        &&& self.max_media_resource_bytes <= self.http.max_response_bytes
        &&& 0 < self.max_total_media_bytes <= MAX_CONFIGURED_TOTAL_MEDIA_BYTES
        &&& 0 < self.max_track_duration@ <= crate::bandcamp::max_configured_track_duration()
        &&& !(self.playback_scheme == NicoNicoPlaybackScheme::HttpForPrivateNetworks
            && self.http.network_access != HttpNetworkAccess::AllowPrivateNetworks)
    }

    /// The bounds hold and both control-API bases are acceptable for the playback scheme.
    pub open spec fn is_valid(&self) -> bool {
        &&& self.bounds_valid()
        &&& spec_valid_control_base(
            self.watch_api_base_url@,
            "www.nicovideo.jp"@,
            self.playback_scheme,
        )
        &&& spec_valid_control_base(
            self.access_api_base_url@,
            "nvapi.nicovideo.jp"@,
            self.playback_scheme,
        )
    }

    pub fn validate(&self) -> (result: Result<(), NicoNicoError>)
        ensures
            self.is_valid() ==> result is Ok,
            !self.is_valid() ==> (result matches Err(e) && e.spec_kind()
                == NicoNicoErrorKind::InvalidOptions),
    {
        let ceiling = Duration::from_hours(31 * 24);
        if self.max_identifier_bytes == 0 || self.max_identifier_bytes
            > MAX_CONFIGURED_IDENTIFIER_BYTES || self.max_metadata_string_bytes == 0
            || self.max_metadata_string_bytes > MAX_CONFIGURED_METADATA_STRING_BYTES
            || self.max_response_bytes == 0 || self.max_response_bytes
            > MAX_CONFIGURED_RESPONSE_BYTES || self.max_response_bytes
            > self.http.max_response_bytes || self.max_formats == 0 || self.max_formats
            > MAX_CONFIGURED_FORMATS || self.max_playback_url_bytes == 0
            || self.max_playback_url_bytes > MAX_CONFIGURED_METADATA_STRING_BYTES || utf8_length(
            chars_of(self.watch_api_base_url.as_str()).as_slice(),
        ) > self.max_playback_url_bytes || utf8_length(
            chars_of(self.access_api_base_url.as_str()).as_slice(),
        ) > self.max_playback_url_bytes || self.max_playlist_bytes == 0 || self.max_playlist_bytes
            > MAX_CONFIGURED_PLAYLIST_BYTES || self.max_playlist_bytes
            > self.http.max_response_bytes || self.max_playlist_line_bytes == 0
            || self.max_playlist_line_bytes > MAX_CONFIGURED_PLAYLIST_LINE_BYTES
            || self.max_playlist_entries == 0 || self.max_playlist_entries
            > MAX_CONFIGURED_PLAYLIST_ENTRIES || self.max_media_resource_bytes == 0
            || self.max_media_resource_bytes > MAX_CONFIGURED_MEDIA_RESOURCE_BYTES
            || self.max_media_resource_bytes > self.http.max_response_bytes
            || self.max_total_media_bytes == 0 || self.max_total_media_bytes
            > MAX_CONFIGURED_TOTAL_MEDIA_BYTES || self.max_track_duration.is_zero()
            || ceiling.less_than(&self.max_track_duration) || (self.playback_scheme
            == NicoNicoPlaybackScheme::HttpForPrivateNetworks && self.http.network_access
            != HttpNetworkAccess::AllowPrivateNetworks) {
            return Err(NicoNicoError::new(NicoNicoErrorKind::InvalidOptions));
        }
        validate_control_base(
            self.watch_api_base_url.as_str(),
            "www.nicovideo.jp",
            self.playback_scheme,
        )?;
        validate_control_base(
            self.access_api_base_url.as_str(),
            "nvapi.nicovideo.jp",
            self.playback_scheme,
        )
    }
}

/// A control-API base URL: over HTTPS it must be exactly the expected host (any letter case)
/// with no user information or port; for private-network replay any HTTP(S) authority without
/// user information. In both cases the URL holds no query and no fragment.
pub open spec fn spec_valid_control_base(
    value: Seq<char>,
    expected_host: Seq<char>,
    scheme: NicoNicoPlaybackScheme,
) -> bool {
    match crate::uri::parsed_uri(value) {
        None => false,
        Some(u) => match u.authority {
            None => false,
            Some(authority) => {
                let valid = match scheme {
                    NicoNicoPlaybackScheme::Https => {
                        &&& u.scheme == Some("https"@)
                        &&& u.host is Some
                        &&& ascii_lowercase(u.host->0) == ascii_lowercase(expected_host)
                        &&& u.host == Some(authority)
                    },
                    NicoNicoPlaybackScheme::HttpForPrivateNetworks => {
                        (u.scheme == Some("http"@) || u.scheme == Some("https"@))
                            && !contains_char(authority, '@')
                    },
                };
                valid && !contains_char(value, '#') && !contains_char(value, '?')
            },
        },
    }
}

pub fn validate_control_base(value: &str, expected_host: &str, scheme: NicoNicoPlaybackScheme) -> (result:
    Result<(), NicoNicoError>)
    ensures
        spec_valid_control_base(value@, expected_host@, scheme) ==> result is Ok,
        !spec_valid_control_base(value@, expected_host@, scheme) ==> (result matches Err(e)
            && e.spec_kind() == NicoNicoErrorKind::InvalidOptions),
{
    let text = chars_of(value);
    let uri = match parse_uri(text.as_slice()) {
        Some(u) => u,
        None => {
            return Err(NicoNicoError::new(NicoNicoErrorKind::InvalidOptions));
        },
    };
    let authority = match &uri.authority {
        Some(a) => a,
        None => {
            return Err(NicoNicoError::new(NicoNicoErrorKind::InvalidOptions));
        },
    };
    let valid = match scheme {
        NicoNicoPlaybackScheme::Https => {
            opt_seq_is(&uri.scheme, "https") && match &uri.host {
                Some(h) => seq_equal(
                    to_ascii_lowercase(h.as_slice()).as_slice(),
                    to_ascii_lowercase(chars_of(expected_host).as_slice()).as_slice(),
                ) && seq_equal(h.as_slice(), authority.as_slice()),
                None => false,
            }
        },
        NicoNicoPlaybackScheme::HttpForPrivateNetworks => {
            (opt_seq_is(&uri.scheme, "http") || opt_seq_is(&uri.scheme, "https")) && !contains(
                authority.as_slice(),
                '@',
            )
        },
    };
    if !valid || contains(text.as_slice(), '#') || contains(text.as_slice(), '?') {
        return Err(NicoNicoError::new(NicoNicoErrorKind::InvalidOptions));
    }
    Ok(())
}

/// A media or playback URL: over HTTPS its host must be `domand.nicovideo.jp` or one of its
/// subdomains (any letter case) with no port; for private-network replay any HTTP(S) URL. In both
/// cases there is no user information and no fragment.
pub open spec fn spec_valid_playback_url(value: Seq<char>, scheme: NicoNicoPlaybackScheme) -> bool {
    match crate::uri::parsed_uri(value) {
        None => false,
        Some(u) => match u.authority {
            None => false,
            Some(authority) => {
                let valid = match scheme {
                    NicoNicoPlaybackScheme::Https => {
                        &&& u.scheme == Some("https"@)
                        &&& u.host is Some
                        &&& (ascii_lowercase(u.host->0) == "domand.nicovideo.jp"@ || has_suffix(
                            ascii_lowercase(u.host->0),
                            ".domand.nicovideo.jp"@,
                        ))
                        &&& u.host == Some(authority)
                    },
                    NicoNicoPlaybackScheme::HttpForPrivateNetworks => {
                        u.scheme == Some("http"@) || u.scheme == Some("https"@)
                    },
                };
                valid && !contains_char(authority, '@') && !contains_char(value, '#')
            },
        },
    }
}

pub fn validate_playback_url(value: &str, scheme: NicoNicoPlaybackScheme) -> (result: Result<
    (),
    NicoNicoError,
>)
    ensures
        spec_valid_playback_url(value@, scheme) ==> result is Ok,
        !spec_valid_playback_url(value@, scheme) ==> (result matches Err(e) && e.spec_kind()
            == NicoNicoErrorKind::InvalidResponse),
{
    let text = chars_of(value);
    let uri = match parse_uri(text.as_slice()) {
        Some(u) => u,
        None => {
            return Err(invalid_response());
        },
    };
    let authority = match &uri.authority {
        Some(a) => a,
        None => {
            return Err(invalid_response());
        },
    };
    let valid = match scheme {
        NicoNicoPlaybackScheme::Https => {
            opt_seq_is(&uri.scheme, "https") && match &uri.host {
                Some(h) => {
                    let host = to_ascii_lowercase(h.as_slice());
                    (seq_equal(host.as_slice(), chars_of("domand.nicovideo.jp").as_slice())
                        || crate::bandcamp::ends_with(
                        host.as_slice(),
                        chars_of(".domand.nicovideo.jp").as_slice(),
                    )) && seq_equal(h.as_slice(), authority.as_slice())
                },
                None => false,
            }
        },
        NicoNicoPlaybackScheme::HttpForPrivateNetworks => {
            opt_seq_is(&uri.scheme, "http") || opt_seq_is(&uri.scheme, "https")
        },
    };
    if !valid || contains(authority.as_slice(), '@') || contains(text.as_slice(), '#') {
        return Err(invalid_response());
    }
    Ok(())
}

/// A signed HLS playback URL and the audio rendition it was granted for. Its diagnostics always
/// redact the value.
#[derive(Clone, PartialEq, Eq)]
pub struct NicoNicoPlaybackUrl {
    url: String,
    audio_id: String,
}

impl NicoNicoPlaybackUrl {
    pub closed spec fn spec_url(&self) -> Seq<char> {
        self.url@
    }

    pub closed spec fn spec_audio_id(&self) -> Seq<char> {
        self.audio_id@
    }

    pub fn as_str(&self) -> (url: &str)
        ensures
            url@ == self.spec_url(),
    {
        self.url.as_str()
    }

    pub fn audio_id(&self) -> (id: &str)
        ensures
            id@ == self.spec_audio_id(),
    {
        self.audio_id.as_str()
    }
}

/// A required, non-empty string of at most `limit` bytes; anything else is an invalid response.
pub fn bounded_string(value: Option<&str>, limit: usize) -> (result: Result<String, NicoNicoError>)
    ensures
        match spec_bounded_string(
            match value {
                Some(v) => Some(v@),
                None => None,
            },
            limit as int,
        ) {
            Some(s) => result matches Ok(r) && r@ == s,
            None => result matches Err(e) && e.spec_kind() == NicoNicoErrorKind::InvalidResponse,
        },
{
    match crate::bandcamp::bounded_string(value, limit) {
        Ok(s) => Ok(s),
        Err(_) => Err(invalid_response()),
    }
}

/// Accepts the content URL of an access-right answer: bounded, and valid for the playback scheme.
pub open spec fn spec_playback_url(content_url: Option<Seq<char>>, options: NicoNicoSourceOptions) -> Option<
    Seq<char>,
> {
    match spec_bounded_string(content_url, options.max_playback_url_bytes as int) {
        None => None,
        Some(url) => if spec_valid_playback_url(url, options.playback_scheme) {
            Some(url)
        } else {
            None
        },
    }
}

/// Builds the playback URL from an access-right answer whose `meta.status` and
/// `data.contentUrl` are given: the status must be 201.
pub fn parse_access_right(
    status: Option<u64>,
    content_url: Option<&str>,
    audio_id: &str,
    options: &NicoNicoSourceOptions,
) -> (result: Result<NicoNicoPlaybackUrl, NicoNicoError>)
    ensures
        status == Some(201u64) && spec_playback_url(
            match content_url {
                Some(v) => Some(v@),
                None => None,
            },
            *options,
        ) is Some ==> (result matches Ok(p) && Some(p.spec_url()) == spec_playback_url(
            match content_url {
                Some(v) => Some(v@),
                None => None,
            },
            *options,
        ) && p.spec_audio_id() == audio_id@),
        !(status == Some(201u64) && spec_playback_url(
            match content_url {
                Some(v) => Some(v@),
                None => None,
            },
            *options,
        ) is Some) ==> (result matches Err(e) && e.spec_kind()
            == NicoNicoErrorKind::InvalidResponse),
{
    if status != Some(201u64) {
        return Err(invalid_response());
    }
    let url = bounded_string(content_url, options.max_playback_url_bytes)?;
    validate_playback_url(url.as_str(), options.playback_scheme)?;
    let id = string_from_chars(chars_of(audio_id).as_slice());
    Ok(NicoNicoPlaybackUrl { url, audio_id: id })
}

} // verus!

verus! {

// ---------------------------------------------------------------------------------------------
// Decryption
// ---------------------------------------------------------------------------------------------

/// What AES-128-CBC decryption with PKCS#7 unpadding yields for a ciphertext, key and IV; `None`
/// when the length or the padding is malformed.
pub uninterp spec fn aes128_cbc_pkcs7_plaintext(ciphertext: Seq<u8>, key: Seq<u8>, iv: Seq<u8>) -> Option<
    Seq<u8>,
>;

/// Calls `cbc::Decryptor::<aes::Aes128>::decrypt_padded::<Pkcs7>` on a copy of the ciphertext.
///
/// The result is named [`aes128_cbc_pkcs7_plaintext`]. The `cipher` source states the facts
/// given here: a ciphertext that is empty or not a whole number of 16-byte blocks is refused,
/// and PKCS#7 unpadding removes between 1 and 16 bytes of the last block.
#[verifier::external_body]
fn aes128_cbc_decrypt(ciphertext: &[u8], key: &[u8; 16], iv: &[u8; 16]) -> (plaintext: Option<
    Vec<u8>,
>)
    ensures
        crate::niconico_hls::opt_bytes(plaintext) == aes128_cbc_pkcs7_plaintext(
            ciphertext@,
            key@,
            iv@,
        ),
        ciphertext@.len() == 0 || ciphertext@.len() % 16 != 0 ==> plaintext is None,
        plaintext matches Some(p) ==> p@.len() < ciphertext@.len() && ciphertext@.len() <= p@.len()
            + 16,
{
    let mut buffer = ciphertext.to_vec();
    cbc::Decryptor::<aes::Aes128>::new(key.into(), iv.into())
        .decrypt_padded::<Pkcs7>(&mut buffer)
        .ok()
        .map(|plain| plain.to_vec())
}

/// Decrypts one AES-128-CBC resource with PKCS#7 padding; malformed input is an invalid
/// playlist.
pub fn decrypt_aes128_cbc(bytes: Vec<u8>, key: [u8; 16], iv: [u8; 16]) -> (result: Result<
    Vec<u8>,
    NicoNicoPlaybackError,
>)
    ensures
        match aes128_cbc_pkcs7_plaintext(bytes@, key@, iv@) {
            Some(p) => result matches Ok(v) && v@ == p,
            None => result matches Err(e) && e.spec_kind()
                == NicoNicoPlaybackErrorKind::InvalidPlaylist,
        },
{
    match aes128_cbc_decrypt(bytes.as_slice(), &key, &iv) {
        Some(p) => Ok(p),
        None => Err(invalid_playlist()),
    }
}

/// The 16 bytes of an IV or key as an array.
pub fn to_block(bytes: &[u8]) -> (block: [u8; 16])
    requires
        bytes@.len() == 16,
    ensures
        block@ == bytes@,
{
    let block = [
        bytes[0],
        bytes[1],
        bytes[2],
        bytes[3],
        bytes[4],
        bytes[5],
        bytes[6],
        bytes[7],
        bytes[8],
        bytes[9],
        bytes[10],
        bytes[11],
        bytes[12],
        bytes[13],
        bytes[14],
        bytes[15],
    ];
    proof {
        assert(block@ =~= bytes@);
    }
    block
}

// ---------------------------------------------------------------------------------------------
// Assembly
// ---------------------------------------------------------------------------------------------

/// AES keys fetched so far, by key URL; each URL occurs once.
pub struct KeyCache {
    entries: Vec<(String, [u8; 16])>,
}

pub open spec fn key_entries_view(v: Seq<(String, [u8; 16])>) -> Seq<(Seq<char>, Seq<u8>)> {
    v.map_values(|e: (String, [u8; 16])| (e.0@, e.1@))
}

/// The key stored for `url`.
pub open spec fn cached_key(entries: Seq<(Seq<char>, Seq<u8>)>, url: Seq<char>) -> Option<Seq<u8>>
    decreases entries.len(),
{
    if entries.len() == 0 {
        None
    } else if entries[0].0 == url {
        Some(entries[0].1)
    } else {
        cached_key(entries.drop_first(), url)
    }
}

impl KeyCache {
    pub closed spec fn spec_entries(&self) -> Seq<(Seq<char>, Seq<u8>)> {
        key_entries_view(self.entries@)
    }

    pub fn new() -> (cache: Self)
        ensures
            cache.spec_entries() == Seq::<(Seq<char>, Seq<u8>)>::empty(),
    {
        let cache = KeyCache { entries: Vec::new() };
        proof {
            assert(cache.spec_entries() =~= Seq::<(Seq<char>, Seq<u8>)>::empty());
        }
        cache
    }

    pub fn len(&self) -> (n: usize)
        ensures
            n == self.spec_entries().len(),
    {
        self.entries.len()
    }

    pub fn get(&self, url: &str) -> (key: Option<[u8; 16]>)
        ensures
            match cached_key(self.spec_entries(), url@) {
                Some(k) => key matches Some(b) && b@ == k,
                None => key is None,
            },
    {
        let target = chars_of(url);
        let ghost all = self.spec_entries();
        let mut i: usize = 0;
        proof {
            assert(all.skip(0) =~= all);
        }
        while i < self.entries.len()
            invariant
                i <= self.entries@.len(),
                all == key_entries_view(self.entries@),
                target@ == url@,
                cached_key(all, url@) == cached_key(all.skip(i as int), url@),
            decreases self.entries@.len() - i,
        {
            proof {
                assert(all.skip(i as int).drop_first() =~= all.skip(i + 1));
                assert(all.skip(i as int)[0] == all[i as int]);
            }
            if seq_equal(chars_of(self.entries[i].0.as_str()).as_slice(), target.as_slice()) {
                return Some(self.entries[i].1);
            }
            i = i + 1;
        }
        None
    }

    /// Remembers the key of a URL that is not cached yet.
    pub fn insert(&mut self, url: &str, key: [u8; 16])
        requires
            cached_key(old(self).spec_entries(), url@) is None,
        ensures
            final(self).spec_entries() == old(self).spec_entries().push((url@, key@)),
    {
        let ghost before = self.spec_entries();
        self.entries.push((string_from_chars(chars_of(url).as_slice()), key));
        proof {
            assert(self.spec_entries() =~= before.push((url@, key@)));
        }
    }
}

/// Appends a decoded resource while the assembled audio stays within `max_total` bytes.
pub fn append_decoded(assembled: &mut Vec<u8>, decoded: &[u8], max_total: u64) -> (result: Result<
    (),
    NicoNicoPlaybackError,
>)
    ensures
        old(assembled)@.len() + decoded@.len() <= max_total ==> result is Ok && final(assembled)@
            == old(assembled)@ + decoded@,
        old(assembled)@.len() + decoded@.len() > max_total ==> (result matches Err(e)
            && e.spec_kind() == NicoNicoPlaybackErrorKind::InvalidPlaylist && final(assembled)@
            == old(assembled)@),
{
    let have = assembled.len();
    let more = decoded.len();
    if more as u64 > max_total || have as u64 > max_total - more as u64 {
        return Err(invalid_playlist());
    }
    let mut i: usize = 0;
    let ghost start = assembled@;
    while i < more
        invariant
            i <= more == decoded@.len(),
            assembled@ == start + decoded@.take(i as int),
        decreases more - i,
    {
        assembled.push(decoded[i]);
        proof {
            assert(decoded@.take(i + 1) =~= decoded@.take(i as int).push(decoded@[i as int]));
        }
        i = i + 1;
    }
    proof {
        assert(decoded@.take(more as int) =~= decoded@);
    }
    Ok(())
}

/// Only AAC (LC, HE-AAC v1 or v2) in an MP4 container is playable.
pub fn check_playback_format(container: crate::media::Container, codec: crate::media::Codec) -> (result:
    Result<(), NicoNicoPlaybackError>)
    ensures
        container == crate::media::Container::Mp4 && (codec == crate::media::Codec::AacLc || codec
            == crate::media::Codec::HeAacV1 || codec == crate::media::Codec::HeAacV2)
            ==> result is Ok,
        !(container == crate::media::Container::Mp4 && (codec == crate::media::Codec::AacLc
            || codec == crate::media::Codec::HeAacV1 || codec == crate::media::Codec::HeAacV2))
            ==> (result matches Err(e) && e.spec_kind()
            == NicoNicoPlaybackErrorKind::IncompatibleFormat),
{
    let aac = match codec {
        crate::media::Codec::AacLc | crate::media::Codec::HeAacV1 | crate::media::Codec::HeAacV2 => true,
        _ => false,
    };
    let mp4 = match container {
        crate::media::Container::Mp4 => true,
        _ => false,
    };
    if !mp4 || !aac {
        return Err(NicoNicoPlaybackError::new(NicoNicoPlaybackErrorKind::IncompatibleFormat));
    }
    Ok(())
}

/// Calls `std::io::Error::kind` and compares it with `ErrorKind::Interrupted`. The kind of an I/O
/// error is not visible to the library, so nothing is stated of the answer.
#[verifier::external_body]
pub(crate) fn io_error_interrupted(error: &std::io::Error) -> bool {
    error.kind() == std::io::ErrorKind::Interrupted
}

/// How a media pipeline failure is reported during playback: cancellation (an interrupted read
/// included) stays cancellation, option errors are option errors, other I/O failures are network
/// failures, and every decoding failure is invalid media.
pub fn map_playback_media_error(error: crate::media::MediaError) -> (mapped: NicoNicoPlaybackError)
    ensures
        match error {
            crate::media::MediaError::Cancelled => mapped.spec_kind()
                == NicoNicoPlaybackErrorKind::Cancelled,
            crate::media::MediaError::InvalidLimits(_)
            | crate::media::MediaError::InvalidHttpOptions(_) => mapped.spec_kind()
                == NicoNicoPlaybackErrorKind::InvalidOptions,
            crate::media::MediaError::Io(_) => mapped.spec_kind()
                == NicoNicoPlaybackErrorKind::Cancelled || mapped.spec_kind()
                == NicoNicoPlaybackErrorKind::Network,
            _ => mapped.spec_kind() == NicoNicoPlaybackErrorKind::InvalidMedia,
        },
{
    let kind = match &error {
        crate::media::MediaError::Cancelled => NicoNicoPlaybackErrorKind::Cancelled,
        crate::media::MediaError::InvalidLimits(_)
        | crate::media::MediaError::InvalidHttpOptions(_) => NicoNicoPlaybackErrorKind::InvalidOptions,
        crate::media::MediaError::Io(e) => {
            if io_error_interrupted(e) {
                NicoNicoPlaybackErrorKind::Cancelled
            } else {
                NicoNicoPlaybackErrorKind::Network
            }
        },
        _ => NicoNicoPlaybackErrorKind::InvalidMedia,
    };
    NicoNicoPlaybackError::new(kind)
}

} // verus!

verus! {

// ---------------------------------------------------------------------------------------------
// Watch data
// ---------------------------------------------------------------------------------------------

/// One entry of the `videos` or `audios` list of the watch data: `isAvailable` (absent reads as
/// unavailable), `id` when it is a string, and `bitRate` (absent reads as 0).
#[derive(Clone, Debug, PartialEq, Eq)]
pub struct NicoNicoFormat {
    pub is_available: bool,
    pub id: Option<String>,
    pub bit_rate: u64,
}

pub struct FormatView {
    pub is_available: bool,
    pub id: Option<Seq<char>>,
    pub bit_rate: u64,
}

pub open spec fn formats_view(v: Seq<NicoNicoFormat>) -> Seq<FormatView> {
    v.map_values(
        |f: NicoNicoFormat|
            FormatView {
                is_available: f.is_available,
                id: crate::track::opt_text(f.id),
                bit_rate: f.bit_rate,
            },
    )
}

/// Picks among the available formats the one with the lowest (or highest) bit rate, the first
/// one on a tie; every available format needs a bounded identifier. The outer `None` is an
/// invalid response.
pub open spec fn select_fold(
    selected: Option<(u64, Seq<char>)>,
    formats: Seq<FormatView>,
    lowest: bool,
    limit: int,
) -> Option<Option<(u64, Seq<char>)>>
    decreases formats.len(),
{
    if formats.len() == 0 {
        Some(selected)
    } else {
        let f = formats[0];
        if !f.is_available {
            select_fold(selected, formats.drop_first(), lowest, limit)
        } else {
            match spec_bounded_string(f.id, limit) {
                None => None,
                Some(id) => {
                    let replace = match selected {
                        None => true,
                        Some((best, _)) => if lowest {
                            f.bit_rate < best
                        } else {
                            f.bit_rate > best
                        },
                    };
                    select_fold(
                        if replace {
                            Some((f.bit_rate, id))
                        } else {
                            selected
                        },
                        formats.drop_first(),
                        lowest,
                        limit,
                    )
                },
            }
        }
    }
}

pub open spec fn spec_select_format(formats: Seq<FormatView>, lowest: bool, limit: int) -> Option<
    Option<Seq<char>>,
> {
    match select_fold(None, formats, lowest, limit) {
        None => None,
        Some(None) => Some(None),
        Some(Some((_, id))) => Some(Some(id)),
    }
}

/// Chooses the lowest-bit-rate (video) or highest-bit-rate (audio) available format.
pub fn select_format(formats: &[NicoNicoFormat], lowest: bool, options: &NicoNicoSourceOptions) -> (result:
    Result<Option<String>, NicoNicoError>)
    ensures
        match spec_select_format(
            formats_view(formats@),
            lowest,
            options.max_metadata_string_bytes as int,
        ) {
            Some(choice) => result matches Ok(c) && crate::track::opt_text(c) == choice,
            None => result matches Err(e) && e.spec_kind() == NicoNicoErrorKind::InvalidResponse,
        },
{
    let ghost all = formats_view(formats@);
    let ghost limit = options.max_metadata_string_bytes as int;
    let mut selected: Option<(u64, String)> = None;
    let mut i: usize = 0;
    proof {
        assert(all.skip(0) =~= all);
    }
    while i < formats.len()
        invariant
            i <= formats@.len(),
            all == formats_view(formats@),
            limit == options.max_metadata_string_bytes as int,
            select_fold(None, all, lowest, limit) == select_fold(
                match selected {
                    Some((b, id)) => Some((b, id@)),
                    None => None,
                },
                all.skip(i as int),
                lowest,
                limit,
            ),
        decreases formats@.len() - i,
    {
        proof {
            assert(all.skip(i as int)[0] == all[i as int]);
            assert(all.skip(i as int).drop_first() =~= all.skip(i + 1));
        }
        let format = &formats[i];
        if format.is_available {
            let id = bounded_string(
                match &format.id {
                    Some(s) => Some(s.as_str()),
                    None => None,
                },
                options.max_metadata_string_bytes,
            )?;
            let bit_rate = format.bit_rate;
            let replace = match &selected {
                None => true,
                Some((best, _)) => if lowest {
                    bit_rate < *best
                } else {
                    bit_rate > *best
                },
            };
            if replace {
                selected = Some((bit_rate, id));
            }
        }
        i = i + 1;
    }
    proof {
        assert(all.skip(i as int) =~= Seq::<FormatView>::empty());
    }
    match selected {
        Some((_, id)) => Ok(Some(id)),
        None => Ok(None),
    }
}

/// The `media.domand` part of the watch data: the format lists (absent when not arrays) and the
/// access-right key when it is a string.
#[derive(Clone, Debug, PartialEq, Eq)]
pub struct NicoNicoDomand {
    pub videos: Option<Vec<NicoNicoFormat>>,
    pub audios: Option<Vec<NicoNicoFormat>>,
    pub access_right_key: Option<String>,
}

/// What an access-right request needs: the watch tracking id, the access-right key and the
/// chosen video and audio formats.
#[derive(Debug, PartialEq, Eq)]
pub struct NicoNicoPlaybackContext {
    pub watch_track_id: String,
    pub access_right_key: String,
    pub video_id: String,
    pub audio_id: String,
}

pub open spec fn opt_formats(v: Option<Vec<NicoNicoFormat>>) -> Option<Seq<FormatView>> {
    match v {
        Some(f) => Some(formats_view(f@)),
        None => None,
    }
}

/// The playback context of the watch data: none without domand media or without an available
/// video and audio format; an invalid response when a list is missing or too long, or an
/// identifier, the tracking id or the key is missing or oversized.
pub open spec fn spec_playback_context(
    domand: Option<NicoNicoDomand>,
    watch_track_id: Option<Seq<char>>,
    options: NicoNicoSourceOptions,
) -> Option<Option<(Seq<char>, Seq<char>, Seq<char>, Seq<char>)>> {
    let limit = options.max_metadata_string_bytes as int;
    match domand {
        None => Some(None),
        Some(d) => match (opt_formats(d.videos), opt_formats(d.audios)) {
            (Some(videos), Some(audios)) => if videos.len() > options.max_formats || audios.len()
                > options.max_formats {
                None
            } else {
                match spec_select_format(videos, true, limit) {
                    None => None,
                    Some(None) => Some(None),
                    Some(Some(video_id)) => match spec_select_format(audios, false, limit) {
                        None => None,
                        Some(None) => Some(None),
                        Some(Some(audio_id)) => match (
                            spec_bounded_string(watch_track_id, limit),
                            spec_bounded_string(crate::track::opt_text(d.access_right_key), limit),
                        ) {
                            (Some(track), Some(key)) => Some(Some((track, key, video_id, audio_id))),
                            _ => None,
                        },
                    },
                }
            },
            _ => None,
        },
    }
}

fn opt_str(value: &Option<String>) -> (s: Option<&str>)
    ensures
        match s {
            Some(x) => value matches Some(v) && x@ == v@,
            None => value is None,
        },
{
    match value {
        Some(v) => Some(v.as_str()),
        None => None,
    }
}

pub fn parse_playback_context(
    domand: &Option<NicoNicoDomand>,
    watch_track_id: Option<&str>,
    options: &NicoNicoSourceOptions,
) -> (result: Result<Option<NicoNicoPlaybackContext>, NicoNicoError>)
    ensures
        match spec_playback_context(
            *domand,
            match watch_track_id {
                Some(v) => Some(v@),
                None => None,
            },
            *options,
        ) {
            Some(None) => result matches Ok(None),
            Some(Some((track, key, video, audio))) => result matches Ok(Some(c))
                && c.watch_track_id@ == track && c.access_right_key@ == key && c.video_id@ == video
                && c.audio_id@ == audio,
            None => result matches Err(e) && e.spec_kind() == NicoNicoErrorKind::InvalidResponse,
        },
{
    let d = match domand {
        Some(d) => d,
        None => {
            return Ok(None);
        },
    };
    let (videos, audios) = match (&d.videos, &d.audios) {
        (Some(v), Some(a)) => (v, a),
        _ => {
            return Err(invalid_response());
        },
    };
    if videos.len() > options.max_formats || audios.len() > options.max_formats {
        return Err(invalid_response());
    }
    let video_id = match select_format(videos.as_slice(), true, options)? {
        Some(v) => v,
        None => {
            return Ok(None);
        },
    };
    let audio_id = match select_format(audios.as_slice(), false, options)? {
        Some(a) => a,
        None => {
            return Ok(None);
        },
    };
    let track = bounded_string(watch_track_id, options.max_metadata_string_bytes);
    let key = bounded_string(opt_str(&d.access_right_key), options.max_metadata_string_bytes);
    match (track, key) {
        (Ok(watch_track_id), Ok(access_right_key)) => Ok(
            Some(NicoNicoPlaybackContext { watch_track_id, access_right_key, video_id, audio_id }),
        ),
        _ => Err(invalid_response()),
    }
}

/// The watch data that the track is read from: `meta.status`, the video's `id`, `title` and
/// `duration`, the author (the owner's nickname or name, else the channel's name), and the
/// first thumbnail URL.
#[derive(Clone, Debug, PartialEq, Eq)]
pub struct NicoNicoWatchData {
    pub status: Option<u64>,
    pub video_id: Option<String>,
    pub title: Option<String>,
    pub author: Option<String>,
    pub duration_seconds: Option<u64>,
    pub artwork_url: Option<String>,
}

/// A bounded optional string: absent stays absent, present must be bounded.
pub open spec fn bounded_optional(value: Option<Seq<char>>, limit: int) -> bool {
    value is None || spec_bounded_string(value, limit) is Some
}

/// The watch data describes the routed video: status 200, the route's valid identifier, a
/// bounded title, author and artwork, and a duration within the limit.
pub open spec fn spec_watch_ok(
    data: NicoNicoWatchData,
    route_id: Seq<char>,
    options: NicoNicoSourceOptions,
) -> bool {
    let meta = options.max_metadata_string_bytes as int;
    &&& data.status == Some(200u64)
    &&& spec_bounded_string(crate::track::opt_text(data.video_id), options.max_identifier_bytes as int)
        == Some(route_id)
    &&& spec_valid_video_id(route_id)
    &&& spec_bounded_string(crate::track::opt_text(data.title), meta) is Some
    &&& bounded_optional(crate::track::opt_text(data.author), meta)
    &&& data.duration_seconds is Some
    &&& data.duration_seconds->0 * 1_000_000_000 <= options.max_track_duration@
    &&& bounded_optional(crate::track::opt_text(data.artwork_url), meta)
}

/// A NicoNico track with whether playback can be requested for it.
#[derive(Debug, PartialEq, Eq)]
pub struct NicoNicoSourceTrack {
    pub info: crate::track::TrackInfo,
    pub playback_available: bool,
}

/// Reads the track of a routed video from its watch data.
pub fn parse_watch(
    data: &NicoNicoWatchData,
    route: &NicoNicoRoute,
    playback_available: bool,
    options: &NicoNicoSourceOptions,
) -> (result: Result<NicoNicoSourceTrack, NicoNicoError>)
    ensures
        spec_watch_ok(*data, route.video_id@, *options) ==> (result matches Ok(t)
            && t.info.identifier@ == route.video_id@
            && Some(t.info.title@) == crate::track::opt_text(data.title)
            && (match data.author {
                Some(a) => t.info.author@ == a@,
                None => t.info.author@ == "Unknown artist"@,
            })
            && t.info.duration@ == data.duration_seconds->0 * 1_000_000_000
            && !t.info.is_stream
            && crate::track::opt_text(t.info.uri) == Some("https://www.nicovideo.jp/watch/"@ + route.video_id@)
            && crate::track::opt_text(t.info.artwork_url) == crate::track::opt_text(data.artwork_url)
            && t.info.isrc is None
            && t.playback_available == playback_available),
        !spec_watch_ok(*data, route.video_id@, *options) ==> (result matches Err(e)
            && e.spec_kind() == NicoNicoErrorKind::InvalidResponse),
{
    if data.status != Some(200u64) {
        return Err(invalid_response());
    }
    let id = bounded_string(opt_str(&data.video_id), options.max_identifier_bytes)?;
    let id_chars = chars_of(id.as_str());
    if !seq_equal(id_chars.as_slice(), chars_of(route.video_id.as_str()).as_slice())
        || !valid_video_id(id_chars.as_slice()) {
        return Err(invalid_response());
    }
    let title = bounded_string(opt_str(&data.title), options.max_metadata_string_bytes)?;
    let author = match &data.author {
        Some(a) => bounded_string(Some(a.as_str()), options.max_metadata_string_bytes)?,
        None => crate::track::copy_text("Unknown artist"),
    };
    let seconds = match data.duration_seconds {
        Some(s) => s,
        None => {
            return Err(invalid_response());
        },
    };
    let duration = Duration::from_secs(seconds);
    if options.max_track_duration.less_than(&duration) {
        return Err(invalid_response());
    }
    let artwork_url = match &data.artwork_url {
        Some(a) => Some(bounded_string(Some(a.as_str()), options.max_metadata_string_bytes)?),
        None => None,
    };
    Ok(
        NicoNicoSourceTrack {
            info: crate::track::TrackInfo {
                title,
                author,
                duration,
                identifier: id,
                is_stream: false,
                uri: Some(route.canonical_url()),
                artwork_url,
                isrc: None,
            },
            playback_available,
        },
    )
}

// ---------------------------------------------------------------------------------------------
// Manager state
// ---------------------------------------------------------------------------------------------

/// The policy, authentication and lifecycle state of a NicoNico source.
pub struct NicoNicoSourceManager {
    options: NicoNicoSourceOptions,
    authentication: Option<NicoNicoAuthentication>,
    shutdown: bool,
}

impl NicoNicoSourceManager {
    pub closed spec fn spec_options(&self) -> NicoNicoSourceOptions {
        self.options
    }

    pub closed spec fn spec_authentication(&self) -> Option<NicoNicoAuthentication> {
        self.authentication
    }

    pub closed spec fn is_shut_down(&self) -> bool {
        self.shutdown
    }

    fn build(
        options: NicoNicoSourceOptions,
        authentication: Option<NicoNicoAuthentication>,
        redirect_ceiling: u32,
        retry_ceiling: u32,
    ) -> (result: Result<Self, NicoNicoError>)
        ensures
            options.is_valid() && options.http.is_valid(redirect_ceiling, retry_ceiling) ==> (
            result matches Ok(m) && m.spec_options() == options && m.spec_authentication()
                == authentication && !m.is_shut_down()),
            !(options.is_valid() && options.http.is_valid(redirect_ceiling, retry_ceiling)) ==> (
            result matches Err(e) && e.spec_kind() == NicoNicoErrorKind::InvalidOptions),
    {
        options.validate()?;
        if options.http.validate(redirect_ceiling, retry_ceiling).is_err() {
            return Err(NicoNicoError::new(NicoNicoErrorKind::InvalidOptions));
        }
        Ok(NicoNicoSourceManager { options, authentication, shutdown: false })
    }

    /// Creates an anonymous manager after validating all HTTP and resource bounds; the HTTP
    /// policy is validated against the transport's redirect and retry ceilings.
    pub fn new(options: NicoNicoSourceOptions, redirect_ceiling: u32, retry_ceiling: u32) -> (result:
        Result<Self, NicoNicoError>)
        ensures
            options.is_valid() && options.http.is_valid(redirect_ceiling, retry_ceiling) ==> (
            result matches Ok(m) && m.spec_options() == options && m.spec_authentication() is None
                && !m.is_shut_down()),
            !(options.is_valid() && options.http.is_valid(redirect_ceiling, retry_ceiling)) ==> (
            result matches Err(e) && e.spec_kind() == NicoNicoErrorKind::InvalidOptions),
    {
        Self::build(options, None, redirect_ceiling, retry_ceiling)
    }

    /// Creates a manager with an explicit `user_session` cookie.
    pub fn with_authentication(
        options: NicoNicoSourceOptions,
        authentication: NicoNicoAuthentication,
        redirect_ceiling: u32,
        retry_ceiling: u32,
    ) -> (result: Result<Self, NicoNicoError>)
        ensures
            options.is_valid() && options.http.is_valid(redirect_ceiling, retry_ceiling) ==> (
            result matches Ok(m) && m.spec_options() == options && m.spec_authentication()
                == Some(authentication) && !m.is_shut_down()),
            !(options.is_valid() && options.http.is_valid(redirect_ceiling, retry_ceiling)) ==> (
            result matches Err(e) && e.spec_kind() == NicoNicoErrorKind::InvalidOptions),
    {
        Self::build(options, Some(authentication), redirect_ceiling, retry_ceiling)
    }

    pub fn authentication_configured(&self) -> (configured: bool)
        ensures
            configured == self.spec_authentication() is Some,
    {
        self.authentication.is_some()
    }

    pub fn source_name(&self) -> (name: &'static str)
        ensures
            name == "niconico",
    {
        "niconico"
    }

    pub fn ensure_active(&self, cancelled: bool) -> (result: Result<(), NicoNicoError>)
        ensures
            self.is_shut_down() ==> (result matches Err(e) && e.spec_kind()
                == NicoNicoErrorKind::Shutdown),
            !self.is_shut_down() && cancelled ==> (result matches Err(e) && e.spec_kind()
                == NicoNicoErrorKind::Cancelled),
            !self.is_shut_down() && !cancelled ==> result is Ok,
    {
        if self.shutdown {
            return Err(NicoNicoError::new(NicoNicoErrorKind::Shutdown));
        }
        if cancelled {
            return Err(NicoNicoError::new(NicoNicoErrorKind::Cancelled));
        }
        Ok(())
    }

    /// The video identifier that playback of a track is resolved for.
    pub fn playback_route(&self, track: &NicoNicoSourceTrack) -> (result: Result<
        NicoNicoRoute,
        NicoNicoError,
    >)
        ensures
            spec_valid_video_id(track.info.identifier@) ==> (result matches Ok(r) && r.video_id@
                == track.info.identifier@),
            !spec_valid_video_id(track.info.identifier@) ==> (result matches Err(e)
                && e.spec_kind() == NicoNicoErrorKind::InvalidResponse),
    {
        let id = chars_of(track.info.identifier.as_str());
        if !valid_video_id(id.as_slice()) {
            return Err(invalid_response());
        }
        Ok(NicoNicoRoute { video_id: crate::track::copy_text(track.info.identifier.as_str()) })
    }

    /// Rebuilds a track from stored details: the payload is empty, the identifier valid, and the
    /// stored URI routes to the same video.
    pub fn decode_with_info(&self, info: &crate::track::TrackInfo, payload: &[u8]) -> (result:
        Result<NicoNicoSourceTrack, crate::source::SourceRegistryError>)
        ensures
            ({
                let routed = match info.uri {
                    Some(u) => spec_route_niconico(u@, self.spec_options()) == Some(
                        info.identifier@,
                    ),
                    None => false,
                };
                payload@.len() == 0 && spec_valid_video_id(info.identifier@) && routed
            }) ==> (result matches Ok(t) && t.info.identifier@ == info.identifier@
                && t.info.title@ == info.title@ && !t.playback_available),
            !({
                let routed = match info.uri {
                    Some(u) => spec_route_niconico(u@, self.spec_options()) == Some(
                        info.identifier@,
                    ),
                    None => false,
                };
                payload@.len() == 0 && spec_valid_video_id(info.identifier@) && routed
            }) ==> result == Err::<NicoNicoSourceTrack, crate::source::SourceRegistryError>(
                crate::source::SourceRegistryError::SourceFailure,
            ),
    {
        let routed = match &info.uri {
            Some(u) => match route_niconico_identifier(u.as_str(), &self.options) {
                Some(r) => seq_equal(
                    chars_of(r.video_id.as_str()).as_slice(),
                    chars_of(info.identifier.as_str()).as_slice(),
                ),
                None => false,
            },
            None => false,
        };
        if payload.len() != 0 || !valid_video_id(chars_of(info.identifier.as_str()).as_slice())
            || !routed {
            return Err(crate::source::SourceRegistryError::SourceFailure);
        }
        Ok(NicoNicoSourceTrack { info: info.duplicate(), playback_available: false })
    }

    /// Stops the manager; every later load fails as shut down.
    pub fn shutdown(&mut self)
        ensures
            final(self).is_shut_down(),
            final(self).spec_options() == old(self).spec_options(),
            final(self).spec_authentication() == old(self).spec_authentication(),
    {
        self.shutdown = true;
    }
}

// ---------------------------------------------------------------------------------------------
// Control and media requests
// ---------------------------------------------------------------------------------------------

use crate::remote_http::{
    header_value_chars_ok, http_token, lemma_header_value_chars_ok, with_header_view,
    with_token_header, RemoteHttpRequest, RequestView,
};

/// The header names that NicoNico requests set are tokens the transport does not own.
proof fn lemma_control_header_names()
    ensures
        crate::remote_http::http_token_name("User-Agent"@),
        ascii_lowercase("User-Agent"@) == "user-agent"@,
        crate::remote_http::http_token_name("X-Frontend-ID"@),
        ascii_lowercase("X-Frontend-ID"@) == "x-frontend-id"@,
        crate::remote_http::http_token_name("X-Frontend-Version"@),
        ascii_lowercase("X-Frontend-Version"@) == "x-frontend-version"@,
        crate::remote_http::http_token_name("Accept"@),
        ascii_lowercase("Accept"@) == "accept"@,
        crate::remote_http::http_token_name("Cookie"@),
        ascii_lowercase("Cookie"@) == "cookie"@,
        crate::remote_http::http_token_name("Content-Type"@),
        ascii_lowercase("Content-Type"@) == "content-type"@,
        crate::remote_http::http_token_name("X-Access-Right-Key"@),
        ascii_lowercase("X-Access-Right-Key"@) == "x-access-right-key"@,
        crate::remote_http::http_token_name("X-Request-With"@),
        ascii_lowercase("X-Request-With"@) == "x-request-with"@,
        !crate::remote_http::spec_transport_owned_header("user-agent"@),
        !crate::remote_http::spec_transport_owned_header("x-frontend-id"@),
        !crate::remote_http::spec_transport_owned_header("x-frontend-version"@),
        !crate::remote_http::spec_transport_owned_header("accept"@),
        !crate::remote_http::spec_transport_owned_header("cookie"@),
        !crate::remote_http::spec_transport_owned_header("content-type"@),
        !crate::remote_http::spec_transport_owned_header("x-access-right-key"@),
        !crate::remote_http::spec_transport_owned_header("x-request-with"@),
{
    reveal_strlit("User-Agent");
    reveal_strlit("user-agent");
    reveal_strlit("X-Frontend-ID");
    reveal_strlit("x-frontend-id");
    reveal_strlit("X-Frontend-Version");
    reveal_strlit("x-frontend-version");
    reveal_strlit("Accept");
    reveal_strlit("accept");
    reveal_strlit("Cookie");
    reveal_strlit("cookie");
    reveal_strlit("Content-Type");
    reveal_strlit("content-type");
    reveal_strlit("X-Access-Right-Key");
    reveal_strlit("x-access-right-key");
    reveal_strlit("X-Request-With");
    reveal_strlit("x-request-with");
    reveal_strlit("host");
    reveal_strlit("content-length");
    reveal_strlit("transfer-encoding");
    reveal_strlit("connection");
    reveal_strlit("accept-encoding");
    reveal_with_fuel(http_token, 19);
    assert(ascii_lowercase("User-Agent"@) =~= "user-agent"@);
    assert(ascii_lowercase("X-Frontend-ID"@) =~= "x-frontend-id"@);
    assert(ascii_lowercase("X-Frontend-Version"@) =~= "x-frontend-version"@);
    assert(ascii_lowercase("Accept"@) =~= "accept"@);
    assert(ascii_lowercase("Cookie"@) =~= "cookie"@);
    assert(ascii_lowercase("Content-Type"@) =~= "content-type"@);
    assert(ascii_lowercase("X-Access-Right-Key"@) =~= "x-access-right-key"@);
    assert(ascii_lowercase("X-Request-With"@) =~= "x-request-with"@);
    assert("user-agent"@[0] != "connection"@[0]);
    assert("x-request-with"@[0] != "content-length"@[0]);
}

/// The fixed header values of NicoNico requests are valid header values.
proof fn lemma_control_header_values()
    ensures
        crate::remote_http::header_value_ok("Mantle-NicoNico/1"@),
        crate::remote_http::header_value_ok("6"@),
        crate::remote_http::header_value_ok("0"@),
        crate::remote_http::header_value_ok("application/json"@),
        crate::remote_http::header_value_ok("https://www.nicovideo.jp"@),
{
    reveal_strlit("Mantle-NicoNico/1");
    reveal_strlit("6");
    reveal_strlit("0");
    reveal_strlit("application/json");
    reveal_strlit("https://www.nicovideo.jp");
    reveal_with_fuel(header_value_chars_ok, 25);
    lemma_header_value_chars_ok("Mantle-NicoNico/1"@);
    lemma_header_value_chars_ok("6"@);
    lemma_header_value_chars_ok("0"@);
    lemma_header_value_chars_ok("application/json"@);
    lemma_header_value_chars_ok("https://www.nicovideo.jp"@);
}

/// The control headers: user agent and front-end identity, the client's response ceiling, an
/// optional `Accept` value, and the session cookie when authenticated.
pub open spec fn spec_control_request(
    base: RequestView,
    accept: Option<Seq<char>>,
    options: NicoNicoSourceOptions,
    authentication: Option<NicoNicoAuthentication>,
) -> Result<RequestView, NicoNicoErrorKind> {
    let r1 = with_header_view(
        with_header_view(
            with_header_view(base, "user-agent"@, "Mantle-NicoNico/1"@),
            "x-frontend-id"@,
            "6"@,
        ),
        "x-frontend-version"@,
        "0"@,
    );
    if !(0 < options.max_response_bytes <= crate::remote_http::MAX_CONFIGURED_RESPONSE_BYTES) {
        Err(NicoNicoErrorKind::InvalidOptions)
    } else {
        let r2 = RequestView { max_response_bytes: Some(options.max_response_bytes), ..r1 };
        let r3 = match accept {
            None => Ok(r2),
            Some(a) => if crate::remote_http::header_value_ok(a) {
                Ok(with_header_view(r2, "accept"@, a))
            } else {
                Err(NicoNicoErrorKind::InvalidOptions)
            },
        };
        match r3 {
            Err(k) => Err(k),
            Ok(r3) => match authentication {
                None => Ok(r3),
                Some(auth) => {
                    let cookie = "user_session="@ + auth.spec_user_session();
                    if crate::remote_http::header_value_ok(cookie) {
                        Ok(with_header_view(r3, "cookie"@, cookie))
                    } else {
                        Err(NicoNicoErrorKind::InvalidAuthentication)
                    }
                },
            },
        }
    }
}

impl NicoNicoSourceManager {
    /// Adds the control headers to a request; a refused request is an options failure.
    pub fn control_request(
        &self,
        request: Result<RemoteHttpRequest, RemoteHttpError>,
        accept: Option<&str>,
    ) -> (result: Result<RemoteHttpRequest, NicoNicoError>)
        ensures
            match request {
                Err(_) => result matches Err(e) && e.spec_kind() == NicoNicoErrorKind::InvalidOptions,
                Ok(base) => match spec_control_request(
                    base@,
                    match accept {
                        Some(a) => Some(a@),
                        None => None,
                    },
                    self.spec_options(),
                    self.spec_authentication(),
                ) {
                    Ok(v) => result matches Ok(r) && r@ == v,
                    Err(k) => result matches Err(e) && e.spec_kind() == k,
                },
            },
    {
        proof {
            lemma_control_header_names();
            lemma_control_header_values();
        }
        let base = match request {
            Ok(r) => r,
            Err(_) => {
                return Err(NicoNicoError::new(NicoNicoErrorKind::InvalidOptions));
            },
        };
        let r = with_token_header(base, "User-Agent", "Mantle-NicoNico/1");
        let r = with_token_header(r, "X-Frontend-ID", "6");
        let r = with_token_header(r, "X-Frontend-Version", "0");
        let mut r = match r.max_response_bytes(self.options.max_response_bytes) {
            Ok(r) => r,
            Err(_) => {
                return Err(NicoNicoError::new(NicoNicoErrorKind::InvalidOptions));
            },
        };
        match accept {
            Some(a) => {
                r = match r.header("Accept", a) {
                    Ok(r) => r,
                    Err(_) => {
                        return Err(NicoNicoError::new(NicoNicoErrorKind::InvalidOptions));
                    },
                };
            },
            None => {},
        }
        match &self.authentication {
            Some(auth) => {
                let mut cookie = chars_of("user_session=");
                let mut session = chars_of(auth.user_session.as_str());
                cookie.append(&mut session);
                let value = string_from_chars(cookie.as_slice());
                r = match r.header("Cookie", value.as_str()) {
                    Ok(r) => r,
                    Err(_) => {
                        return Err(NicoNicoError::new(NicoNicoErrorKind::InvalidAuthentication));
                    },
                };
            },
            None => {},
        }
        Ok(r)
    }
}

/// A GET request as it is first built: idempotent, without headers, body or ceiling.
pub open spec fn get_view(url: Seq<char>) -> RequestView {
    RequestView {
        method: crate::remote_http::RemoteHttpMethod::Get,
        url,
        headers: Seq::empty(),
        body: Seq::empty(),
        retry_mode: crate::remote_http::RemoteRetryMode::Idempotent,
        max_response_bytes: None,
    }
}

/// The control request for a URL: `None` when it is no request URL.
pub open spec fn spec_control_get(
    url: Seq<char>,
    accept: Option<Seq<char>>,
    options: NicoNicoSourceOptions,
    authentication: Option<NicoNicoAuthentication>,
) -> Result<RequestView, NicoNicoErrorKind> {
    match crate::remote_http::spec_remote_uri(url) {
        None => Err(NicoNicoErrorKind::InvalidOptions),
        Some(u) => spec_control_request(get_view(u.text), accept, options, authentication),
    }
}

/// The watch-data endpoint of a video: the guest API without a session.
pub open spec fn watch_endpoint(
    options: NicoNicoSourceOptions,
    authenticated: bool,
    video_id: Seq<char>,
    unix_millis: u64,
) -> Seq<char> {
    crate::soundcloud::trim_end_slashes(options.watch_api_base_url@) + "/"@ + (if authenticated {
        "v3"@
    } else {
        "v3_guest"@
    }) + "/"@ + video_id + "?actionTrackId=AAAAAAAAAA_"@ + crate::track::decimal_text(
        unix_millis as nat,
    )
}

/// A lower-case hexadecimal digit.
pub open spec fn hex_lower(d: u32) -> char {
    if d < 10 {
        (('0' as u32) + d) as char
    } else {
        (('a' as u32) + d - 10) as char
    }
}

/// How `serde_json` writes one character inside a string: quote and backslash escaped,
/// backspace, form feed, line feed, carriage return and tab by their letters, other control
/// characters below U+0020 as `\u00` and two lower-case hex digits, all else as itself.
pub open spec fn json_escape(c: char) -> Seq<char> {
    if c == '"' {
        seq!['\\', '"']
    } else if c == '\\' {
        seq!['\\', '\\']
    } else if c == '\x08' {
        seq!['\\', 'b']
    } else if c == '\x0c' {
        seq!['\\', 'f']
    } else if c == '\n' {
        seq!['\\', 'n']
    } else if c == '\r' {
        seq!['\\', 'r']
    } else if c == '\t' {
        seq!['\\', 't']
    } else if (c as u32) < 0x20 {
        seq!['\\', 'u', '0', '0', hex_lower((c as u32) / 16), hex_lower((c as u32) % 16)]
    } else {
        seq![c]
    }
}

pub open spec fn json_escaped(text: Seq<char>) -> Seq<char>
    decreases text.len(),
{
    if text.len() == 0 {
        Seq::empty()
    } else {
        json_escaped(text.drop_last()) + json_escape(text.last())
    }
}

/// The JSON text of a string, as `serde_json` writes it: quoted, with escapes.
pub open spec fn json_string(text: Seq<char>) -> Seq<char> {
    seq!['"'] + json_escaped(text) + seq!['"']
}

/// Calls `serde_json::to_string` on a string, which writes it as a JSON string literal: the
/// crate's escape table (`ser.rs`, `ESCAPE` and `write_char_escape`) is what [`json_string`]
/// states. Serializing a `str` cannot fail, so the failure branch is empty.
#[verifier::external_body]
fn json_text(text: &str) -> (json: String)
    ensures
        json@ == json_string(text@),
{
    serde_json::to_string(text).unwrap_or_default()
}

/// The access-rights endpoint of a video, with the watch track id as its query.
pub open spec fn access_endpoint(options: NicoNicoSourceOptions, video_id: Seq<char>, track_id: Seq<char>) -> Seq<
    char,
> {
    crate::soundcloud::trim_end_slashes(options.access_api_base_url@) + "/"@ + video_id
        + "/access-rights/hls?actionTrackId="@ + crate::soundcloud::form_encode(
        vstd::utf8::encode_utf8(track_id),
    )
}

/// The access-rights request body: `{"outputs":[[<video>,<audio>]]}`.
pub open spec fn access_body(context_video: Seq<char>, audio: Seq<char>) -> Seq<u8> {
    vstd::utf8::encode_utf8(
        "{\"outputs\":[["@ + json_string(context_video) + ","@ + json_string(audio) + "]]}"@,
    )
}

/// The access-rights request: a POST of the output pair with the control headers and JSON
/// `Accept`, then the JSON content type, the access-right key and the requesting origin; a
/// refused key is an invalid response.
pub open spec fn spec_access_request(
    options: NicoNicoSourceOptions,
    authentication: Option<NicoNicoAuthentication>,
    route_video: Seq<char>,
    context: NicoNicoPlaybackContext,
) -> Result<RequestView, NicoNicoErrorKind> {
    let url = access_endpoint(options, route_video, context.watch_track_id@);
    let body = access_body(context.video_id@, context.audio_id@);
    if body.len() > crate::remote_http::MAX_CONFIGURED_REQUEST_BYTES {
        Err(NicoNicoErrorKind::InvalidOptions)
    } else {
        match crate::remote_http::spec_remote_uri(url) {
            None => Err(NicoNicoErrorKind::InvalidOptions),
            Some(u) => match spec_control_request(
                RequestView {
                    method: crate::remote_http::RemoteHttpMethod::Post,
                    url: u.text,
                    headers: Seq::empty(),
                    body,
                    retry_mode: crate::remote_http::RemoteRetryMode::Never,
                    max_response_bytes: None,
                },
                Some("application/json"@),
                options,
                authentication,
            ) {
                Err(k) => Err(k),
                Ok(r) => if !crate::remote_http::header_value_ok(context.access_right_key@) {
                    Err(NicoNicoErrorKind::InvalidResponse)
                } else {
                    Ok(
                        with_header_view(
                            with_header_view(
                                with_header_view(r, "content-type"@, "application/json"@),
                                "x-access-right-key"@,
                                context.access_right_key@,
                            ),
                            "x-request-with"@,
                            "https://www.nicovideo.jp"@,
                        ),
                    )
                },
            },
        }
    }
}

pub fn join_chars(parts: &[&str]) -> (text: Vec<char>)
    ensures
        text@ == join_parts(parts@),
{
    let mut out: Vec<char> = Vec::new();
    let mut i: usize = 0;
    while i < parts.len()
        invariant
            i <= parts@.len(),
            out@ == join_parts(parts@.take(i as int)),
        decreases parts@.len() - i,
    {
        let mut piece = chars_of(parts[i]);
        let ghost before = out@;
        let ghost added = piece@;
        out.append(&mut piece);
        proof {
            assert(parts@.take(i + 1).drop_last() =~= parts@.take(i as int));
            assert(out@ =~= before + added);
        }
        i = i + 1;
    }
    proof {
        assert(parts@.take(i as int) =~= parts@);
    }
    out
}

pub open spec fn join_parts(parts: Seq<&str>) -> Seq<char>
    decreases parts.len(),
{
    if parts.len() == 0 {
        Seq::empty()
    } else {
        join_parts(parts.drop_last()) + parts.last()@
    }
}

impl NicoNicoSourceManager {
    /// The watch-data request of a route; the video id must be valid. Its millisecond clock
    /// reading makes the action-track id.
    pub fn watch_request(&self, route: &NicoNicoRoute, unix_millis: u64) -> (result: Result<
        RemoteHttpRequest,
        NicoNicoError,
    >)
        ensures
            !spec_valid_video_id(route.video_id@) ==> (result matches Err(e) && e.spec_kind()
                == NicoNicoErrorKind::UnsupportedRoute),
            spec_valid_video_id(route.video_id@) ==> match spec_control_get(
                watch_endpoint(
                    self.spec_options(),
                    self.spec_authentication() is Some,
                    route.video_id@,
                    unix_millis,
                ),
                None,
                self.spec_options(),
                self.spec_authentication(),
            ) {
                Ok(v) => result matches Ok(r) && r@ == v,
                Err(k) => result matches Err(e) && e.spec_kind() == k,
            },
    {
        if !valid_video_id(chars_of(route.video_id.as_str()).as_slice()) {
            return Err(NicoNicoError::new(NicoNicoErrorKind::UnsupportedRoute));
        }
        let version = if self.authentication.is_some() {
            "v3"
        } else {
            "v3_guest"
        };
        let base = crate::soundcloud::trim_end_slash_chars(
            chars_of(self.options.watch_api_base_url.as_str()).as_slice(),
        );
        let base_text = string_from_chars(base.as_slice());
        let digits = crate::track::decimal_string(unix_millis);
        let parts = [
            base_text.as_str(),
            "/",
            version,
            "/",
            route.video_id.as_str(),
            "?actionTrackId=AAAAAAAAAA_",
            digits.as_str(),
        ];
        let endpoint = join_chars(&parts);
        proof {
            reveal_with_fuel(join_parts, 8);
            assert(endpoint@ =~= watch_endpoint(
                self.spec_options(),
                self.spec_authentication() is Some,
                route.video_id@,
                unix_millis,
            ));
        }
        self.control_request(
            RemoteHttpRequest::get(string_from_chars(endpoint.as_slice()).as_str()),
            None,
        )
    }

    /// The access-rights request of a route's playback context.
    pub fn access_right_request(&self, route: &NicoNicoRoute, context: &NicoNicoPlaybackContext) -> (
    result: Result<RemoteHttpRequest, NicoNicoError>)
        ensures
            match spec_access_request(
                self.spec_options(),
                self.spec_authentication(),
                route.video_id@,
                *context,
            ) {
                Ok(v) => result matches Ok(r) && r@ == v,
                Err(k) => result matches Err(e) && e.spec_kind() == k,
            },
    {
        proof {
            lemma_control_header_names();
            lemma_control_header_values();
            reveal_strlit("application/json");
        }
        let base = crate::soundcloud::trim_end_slash_chars(
            chars_of(self.options.access_api_base_url.as_str()).as_slice(),
        );
        let base_text = string_from_chars(base.as_slice());
        let query = crate::soundcloud::form_url_encode(context.watch_track_id.as_str());
        let url_parts = [
            base_text.as_str(),
            "/",
            route.video_id.as_str(),
            "/access-rights/hls?actionTrackId=",
            query.as_str(),
        ];
        let url = string_from_chars(join_chars(&url_parts).as_slice());
        let video = json_text(context.video_id.as_str());
        let audio = json_text(context.audio_id.as_str());
        let body_parts = ["{\"outputs\":[[", video.as_str(), ",", audio.as_str(), "]]}"];
        let body_text = string_from_chars(join_chars(&body_parts).as_slice());
        proof {
            reveal_with_fuel(join_parts, 6);
            assert(url@ =~= access_endpoint(
                self.spec_options(),
                route.video_id@,
                context.watch_track_id@,
            ));
            assert(body_text@ =~= "{\"outputs\":[["@ + json_string(context.video_id@) + ","@
                + json_string(context.audio_id@) + "]]}"@);
        }
        let post = RemoteHttpRequest::post(url.as_str(), body_text.as_str().as_bytes());
        let r = self.control_request(post, Some("application/json"))?;
        let r = with_token_header(r, "Content-Type", "application/json");
        let r = match r.header("X-Access-Right-Key", context.access_right_key.as_str()) {
            Ok(r) => r,
            Err(_) => {
                return Err(invalid_response());
            },
        };
        Ok(with_token_header(r, "X-Request-With", "https://www.nicovideo.jp"))
    }

    /// A media request (playlist, key or segment): a valid playback URL, the user agent and the
    /// given response ceiling.
    pub fn media_request(&self, url: &str, max_response_bytes: u64) -> (result: Result<
        RemoteHttpRequest,
        NicoNicoPlaybackError,
    >)
        ensures
            !spec_valid_playback_url(url@, self.spec_options().playback_scheme) ==> (result matches Err(
                e,
            ) && e.spec_kind() == NicoNicoPlaybackErrorKind::InvalidPlaylist),
            spec_valid_playback_url(url@, self.spec_options().playback_scheme) ==> match crate::remote_http::spec_remote_uri(url@) {
                Some(u) => if 0 < max_response_bytes
                    <= crate::remote_http::MAX_CONFIGURED_RESPONSE_BYTES {
                    result matches Ok(r) && r@ == (RequestView {
                        max_response_bytes: Some(max_response_bytes),
                        ..with_header_view(get_view(u.text), "user-agent"@, "Mantle-NicoNico/1"@)
                    })
                } else {
                    result matches Err(e) && e.spec_kind() == NicoNicoPlaybackErrorKind::InvalidOptions
                },
                None => result matches Err(e) && e.spec_kind()
                    == NicoNicoPlaybackErrorKind::InvalidOptions,
            },
    {
        proof {
            lemma_control_header_names();
            lemma_control_header_values();
        }
        if validate_playback_url(url, self.options.playback_scheme).is_err() {
            return Err(invalid_playlist());
        }
        let r = match RemoteHttpRequest::get(url) {
            Ok(r) => r,
            Err(_) => {
                return Err(NicoNicoPlaybackError::new(NicoNicoPlaybackErrorKind::InvalidOptions));
            },
        };
        let r = with_token_header(r, "User-Agent", "Mantle-NicoNico/1");
        match r.max_response_bytes(max_response_bytes) {
            Ok(r) => Ok(r),
            Err(_) => Err(NicoNicoPlaybackError::new(NicoNicoPlaybackErrorKind::InvalidOptions)),
        }
    }
}

} // verus!
