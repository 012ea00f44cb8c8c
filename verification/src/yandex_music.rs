use vstd::prelude::*;

use crate::bandcamp::{has_suffix, spec_bounded_string};
use crate::http_policy::HttpNetworkAccess;
use crate::playlist::{contains_char, seq_equal};
use crate::remote_http::{RemoteHttpError, RemoteHttpErrorKind, RemoteHttpOptions};
use crate::route_util::{ascii_lowercase, contains, opt_seq_is, to_ascii_lowercase, utf8_len, utf8_length};
use crate::soundcloud::{trim_end_slashes, without_scheme};
use crate::text::{chars_of, copy_range, find_char, has_prefix, split_once, split_once_chars, starts_with, string_from_chars, trim, trim_chars};
use crate::track::{copy_text, opt_text};

use md5::Digest;

verus! {

pub const MAX_API_BASE_URL_BYTES: usize = 4 * 1024;

pub const MAX_ACCESS_TOKEN_BYTES: usize = 16 * 1024;

pub const MAX_CONFIGURED_IDENTIFIER_BYTES: usize = 64 * 1024;

pub const MAX_CONFIGURED_METADATA_STRING_BYTES: usize = 1024 * 1024;

pub const MAX_CONFIGURED_RESPONSE_BYTES: u64 = 64 * 1024 * 1024;

pub const MAX_CONFIGURED_ARTISTS: usize = 256;

pub const MAX_CONFIGURED_COLLECTION_TRACKS: usize = 10_000;

pub const MAX_CONFIGURED_COLLECTION_PAGES: usize = 64;

pub const MAX_CONFIGURED_DOWNLOAD_CANDIDATES: usize = 256;

pub const MAX_CONFIGURED_PLAYBACK_URL_BYTES: usize = 1024 * 1024;

pub const MAX_CONFIGURED_DOWNLOAD_INFO_BYTES: u64 = 1024 * 1024;

pub const MAX_NUMERIC_IDENTIFIER_BYTES: usize = 32;

pub const MAX_PLAYLIST_IDENTIFIER_BYTES: usize = 256;

pub const MAX_BITRATE_KBPS: u32 = 10_000;

pub const ALBUM_TRACKS_PER_PAGE: usize = 50;

pub const ARTIST_TRACKS_PER_PAGE: usize = 10;

pub const PLAYLIST_TRACKS_PER_PAGE: usize = 100;

// ---------------------------------------------------------------------------------------------
// Errors
// ---------------------------------------------------------------------------------------------

/// Failure classes whose diagnostics contain no identifiers or credentials.
#[derive(Clone, Copy, Debug, PartialEq, Eq, Structural)]
pub enum YandexMusicErrorKind {
    InvalidOptions,
    InvalidAuthentication,
    Cancelled,
    Shutdown,
    Network,
    RateLimited,
    AuthenticationRequired,
    Unavailable,
    InvalidResponse,
    UnsupportedRoute,
}

#[derive(Clone, Copy, Debug, PartialEq, Eq, Structural)]
pub struct YandexMusicError {
    kind: YandexMusicErrorKind,
}

impl YandexMusicError {
    pub closed spec fn spec_kind(self) -> YandexMusicErrorKind {
        self.kind
    }

    pub fn new(kind: YandexMusicErrorKind) -> (error: Self)
        ensures
            error.spec_kind() == kind,
    {
        YandexMusicError { kind }
    }

    pub fn kind(&self) -> (kind: YandexMusicErrorKind)
        ensures
            kind == self.spec_kind(),
    {
        self.kind
    }

    pub fn message(&self) -> (text: &'static str)
        ensures
            text == (match self.spec_kind() {
                YandexMusicErrorKind::InvalidOptions => "invalid Yandex Music source policy",
                YandexMusicErrorKind::InvalidAuthentication => "invalid Yandex Music authentication policy",
                YandexMusicErrorKind::Cancelled => "Yandex Music load cancelled",
                YandexMusicErrorKind::Shutdown => "Yandex Music source is shut down",
                YandexMusicErrorKind::Network => "Yandex Music request failed",
                YandexMusicErrorKind::RateLimited => "Yandex Music rate limit reached",
                YandexMusicErrorKind::AuthenticationRequired => "Yandex Music rejected authentication",
                YandexMusicErrorKind::Unavailable => "Yandex Music content is unavailable",
                YandexMusicErrorKind::InvalidResponse => "Yandex Music returned an invalid response",
                YandexMusicErrorKind::UnsupportedRoute => "Yandex Music route is not implemented",
            }),
    {
        match self.kind {
            YandexMusicErrorKind::InvalidOptions => "invalid Yandex Music source policy",
            YandexMusicErrorKind::InvalidAuthentication => "invalid Yandex Music authentication policy",
            YandexMusicErrorKind::Cancelled => "Yandex Music load cancelled",
            YandexMusicErrorKind::Shutdown => "Yandex Music source is shut down",
            YandexMusicErrorKind::Network => "Yandex Music request failed",
            YandexMusicErrorKind::RateLimited => "Yandex Music rate limit reached",
            YandexMusicErrorKind::AuthenticationRequired => "Yandex Music rejected authentication",
            YandexMusicErrorKind::Unavailable => "Yandex Music content is unavailable",
            YandexMusicErrorKind::InvalidResponse => "Yandex Music returned an invalid response",
            YandexMusicErrorKind::UnsupportedRoute => "Yandex Music route is not implemented",
        }
    }
}

pub fn invalid_response() -> (error: YandexMusicError)
    ensures
        error.spec_kind() == YandexMusicErrorKind::InvalidResponse,
{
    YandexMusicError::new(YandexMusicErrorKind::InvalidResponse)
}

fn invalid_options() -> (error: YandexMusicError)
    ensures
        error.spec_kind() == YandexMusicErrorKind::InvalidOptions,
{
    YandexMusicError::new(YandexMusicErrorKind::InvalidOptions)
}

/// Failure classes of finite-media handoff.
#[derive(Clone, Copy, Debug, PartialEq, Eq, Structural)]
pub enum YandexMusicPlaybackErrorKind {
    Source(YandexMusicErrorKind),
    InvalidOptions,
    Cancelled,
    Network,
    InvalidMedia,
    IncompatibleFormat,
}

/// A playback failure that never retains a signed URL, OAuth token or service body.
#[derive(Clone, Copy, Debug, PartialEq, Eq, Structural)]
pub struct YandexMusicPlaybackError {
    kind: YandexMusicPlaybackErrorKind,
}

impl YandexMusicPlaybackError {
    pub closed spec fn spec_kind(self) -> YandexMusicPlaybackErrorKind {
        self.kind
    }

    pub fn new(kind: YandexMusicPlaybackErrorKind) -> (error: Self)
        ensures
            error.spec_kind() == kind,
    {
        YandexMusicPlaybackError { kind }
    }

    pub fn kind(self) -> (kind: YandexMusicPlaybackErrorKind)
        ensures
            kind == self.spec_kind(),
    {
        self.kind
    }

    pub fn message(self) -> (text: &'static str)
        ensures
            text == (match self.spec_kind() {
                YandexMusicPlaybackErrorKind::Source(_) => "Yandex Music playback discovery failed",
                YandexMusicPlaybackErrorKind::InvalidOptions => "invalid Yandex Music media policy",
                YandexMusicPlaybackErrorKind::Cancelled => "Yandex Music playback cancelled",
                YandexMusicPlaybackErrorKind::Network => "Yandex Music media request failed",
                YandexMusicPlaybackErrorKind::InvalidMedia => "Yandex Music returned invalid media",
                YandexMusicPlaybackErrorKind::IncompatibleFormat => {
                    "Yandex Music media does not match the selected MP3 format"
                },
            }),
    {
        match self.kind {
            YandexMusicPlaybackErrorKind::Source(_) => "Yandex Music playback discovery failed",
            YandexMusicPlaybackErrorKind::InvalidOptions => "invalid Yandex Music media policy",
            YandexMusicPlaybackErrorKind::Cancelled => "Yandex Music playback cancelled",
            YandexMusicPlaybackErrorKind::Network => "Yandex Music media request failed",
            YandexMusicPlaybackErrorKind::InvalidMedia => "Yandex Music returned invalid media",
            YandexMusicPlaybackErrorKind::IncompatibleFormat => {
                "Yandex Music media does not match the selected MP3 format"
            },
        }
    }
}

/// Remote failures of the API: malformed and oversized answers are invalid responses.
pub open spec fn spec_map_remote_kind(kind: RemoteHttpErrorKind) -> YandexMusicErrorKind {
    match kind {
        RemoteHttpErrorKind::Cancelled => YandexMusicErrorKind::Cancelled,
        RemoteHttpErrorKind::RateLimited => YandexMusicErrorKind::RateLimited,
        RemoteHttpErrorKind::Unauthorized | RemoteHttpErrorKind::Forbidden => {
            YandexMusicErrorKind::AuthenticationRequired
        },
        RemoteHttpErrorKind::NotFound => YandexMusicErrorKind::Unavailable,
        RemoteHttpErrorKind::InvalidResponse | RemoteHttpErrorKind::ResponseTooLarge => {
            YandexMusicErrorKind::InvalidResponse
        },
        _ => YandexMusicErrorKind::Network,
    }
}

pub fn map_remote_error(error: RemoteHttpError) -> (mapped: YandexMusicError)
    ensures
        mapped.spec_kind() == spec_map_remote_kind(error@.kind),
{
    let kind = match error.kind() {
        RemoteHttpErrorKind::Cancelled => YandexMusicErrorKind::Cancelled,
        RemoteHttpErrorKind::RateLimited => YandexMusicErrorKind::RateLimited,
        RemoteHttpErrorKind::Unauthorized | RemoteHttpErrorKind::Forbidden => {
            YandexMusicErrorKind::AuthenticationRequired
        },
        RemoteHttpErrorKind::NotFound => YandexMusicErrorKind::Unavailable,
        RemoteHttpErrorKind::InvalidResponse | RemoteHttpErrorKind::ResponseTooLarge => {
            YandexMusicErrorKind::InvalidResponse
        },
        _ => YandexMusicErrorKind::Network,
    };
    YandexMusicError::new(kind)
}

/// A discovery failure seen by playback: cancellation stays cancellation, every other failure
/// keeps its source kind.
pub fn map_playback_source_error(error: YandexMusicError) -> (mapped: YandexMusicPlaybackError)
    ensures
        error.spec_kind() == YandexMusicErrorKind::Cancelled ==> mapped.spec_kind()
            == YandexMusicPlaybackErrorKind::Cancelled,
        error.spec_kind() != YandexMusicErrorKind::Cancelled ==> mapped.spec_kind()
            == YandexMusicPlaybackErrorKind::Source(error.spec_kind()),
{
    if error.kind() == YandexMusicErrorKind::Cancelled {
        YandexMusicPlaybackError::new(YandexMusicPlaybackErrorKind::Cancelled)
    } else {
        YandexMusicPlaybackError::new(YandexMusicPlaybackErrorKind::Source(error.kind()))
    }
}

/// How a media pipeline failure is reported during playback: cancellation (an interrupted read
/// included) stays cancellation, option errors are option errors, other I/O failures are network
/// failures, and every decoding failure is invalid media.
pub fn map_playback_media_error(error: crate::media::MediaError) -> (mapped: YandexMusicPlaybackError)
    ensures
        match error {
            crate::media::MediaError::Cancelled => mapped.spec_kind()
                == YandexMusicPlaybackErrorKind::Cancelled,
            crate::media::MediaError::InvalidLimits(_)
            | crate::media::MediaError::InvalidHttpOptions(_) => mapped.spec_kind()
                == YandexMusicPlaybackErrorKind::InvalidOptions,
            crate::media::MediaError::Io(_) => mapped.spec_kind()
                == YandexMusicPlaybackErrorKind::Cancelled || mapped.spec_kind()
                == YandexMusicPlaybackErrorKind::Network,
            _ => mapped.spec_kind() == YandexMusicPlaybackErrorKind::InvalidMedia,
        },
{
    let kind = match &error {
        crate::media::MediaError::Cancelled => YandexMusicPlaybackErrorKind::Cancelled,
        crate::media::MediaError::InvalidLimits(_)
        | crate::media::MediaError::InvalidHttpOptions(_) => YandexMusicPlaybackErrorKind::InvalidOptions,
        crate::media::MediaError::Io(e) => {
            if crate::niconico::io_error_interrupted(e) {
                YandexMusicPlaybackErrorKind::Cancelled
            } else {
                YandexMusicPlaybackErrorKind::Network
            }
        },
        _ => YandexMusicPlaybackErrorKind::InvalidMedia,
    };
    YandexMusicPlaybackError::new(kind)
}

// ---------------------------------------------------------------------------------------------
// Authentication and options
// ---------------------------------------------------------------------------------------------

/// A validated caller-provided OAuth token; its diagnostics never expose the value.
#[derive(Clone, PartialEq, Eq)]
pub struct YandexMusicAuthentication {
    access_token: String,
}

impl YandexMusicAuthentication {
    pub closed spec fn spec_access_token(&self) -> Seq<char> {
        self.access_token@
    }

    /// Accepts 1 to 16 KiB of visible ASCII.
    pub fn new(access_token: String) -> (result: Result<Self, YandexMusicError>)
        ensures
            crate::soundcloud::valid_credential(access_token@, MAX_ACCESS_TOKEN_BYTES as int) ==> (
            result matches Ok(a) && a.spec_access_token() == access_token@),
            !crate::soundcloud::valid_credential(access_token@, MAX_ACCESS_TOKEN_BYTES as int)
                ==> (result matches Err(e) && e.spec_kind()
                == YandexMusicErrorKind::InvalidAuthentication),
    {
        if !crate::soundcloud::is_valid_credential(access_token.as_str(), MAX_ACCESS_TOKEN_BYTES) {
            return Err(YandexMusicError::new(YandexMusicErrorKind::InvalidAuthentication));
        }
        Ok(YandexMusicAuthentication { access_token })
    }

    pub fn access_token(&self) -> (token: &str)
        ensures
            token@ == self.spec_access_token(),
    {
        self.access_token.as_str()
    }
}

/// Scheme policy for the signed media URL built from download information.
#[derive(Clone, Copy, Debug, PartialEq, Eq, Structural)]
pub enum YandexMusicPlaybackScheme {
    Https,
    /// Permit HTTP only alongside the explicit private-network source policy, for trusted
    /// loopback replay; never for public service traffic.
    HttpForPrivateNetworks,
}

/// Bounded routing, HTTP and metadata policy.
#[derive(Clone, Debug, PartialEq, Eq)]
pub struct YandexMusicSourceOptions {
    pub http: RemoteHttpOptions,
    pub api_base_url: String,
    pub allow_search: bool,
    pub allow_recommendations: bool,
    pub max_identifier_bytes: usize,
    pub max_metadata_string_bytes: usize,
    pub max_artists: usize,
    pub max_collection_tracks: usize,
    pub max_collection_pages: usize,
    pub max_download_candidates: usize,
    pub max_playback_url_bytes: usize,
    pub max_download_info_bytes: u64,
    pub playback_scheme: YandexMusicPlaybackScheme,
    pub max_response_bytes: u64,
}

fn concat_chars(a: &[char], b: &[char]) -> (result: Vec<char>)
    ensures
        result@ == a@ + b@,
{
    let mut out = copy_range(a, 0, a.len());
    let mut tail = copy_range(b, 0, b.len());
    let ghost x = out@;
    let ghost y = tail@;
    out.append(&mut tail);
    proof {
        assert(a@.subrange(0, a@.len() as int) =~= a@);
        assert(b@.subrange(0, b@.len() as int) =~= b@);
        assert(out@ =~= x + y);
    }
    out
}

impl YandexMusicSourceOptions {
    pub fn default_options() -> (options: Self)
        ensures
            crate::remote_http::is_default_remote_options(options.http),
            options.api_base_url@ == "https://api.music.yandex.net"@,
            options.allow_search,
            options.allow_recommendations,
            options.max_identifier_bytes == 8 * 1024,
            options.max_metadata_string_bytes == 64 * 1024,
            options.max_artists == 64,
            options.max_collection_tracks == 600,
            options.max_collection_pages == 6,
            options.max_download_candidates == 64,
            options.max_playback_url_bytes == 64 * 1024,
            options.max_download_info_bytes == 64 * 1024,
            options.playback_scheme == YandexMusicPlaybackScheme::Https,
            options.max_response_bytes == 1024 * 1024,
    {
        YandexMusicSourceOptions {
            http: RemoteHttpOptions::default_options(),
            api_base_url: copy_text("https://api.music.yandex.net"),
            allow_search: true,
            allow_recommendations: true,
            max_identifier_bytes: 8 * 1024,
            max_metadata_string_bytes: 64 * 1024,
            max_artists: 64,
            max_collection_tracks: 600,
            max_collection_pages: 6,
            max_download_candidates: 64,
            max_playback_url_bytes: 64 * 1024,
            max_download_info_bytes: 64 * 1024,
            playback_scheme: YandexMusicPlaybackScheme::Https,
            max_response_bytes: 1024 * 1024,
        }
    }

    pub open spec fn is_valid(&self) -> bool {
        &&& self.api_base_url@.len() > 0
        &&& utf8_len(self.api_base_url@) <= MAX_API_BASE_URL_BYTES
        &&& 0 < self.max_identifier_bytes <= MAX_CONFIGURED_IDENTIFIER_BYTES
        &&& 0 < self.max_metadata_string_bytes <= MAX_CONFIGURED_METADATA_STRING_BYTES
        &&& 0 < self.max_artists <= MAX_CONFIGURED_ARTISTS
        &&& 0 < self.max_collection_tracks <= MAX_CONFIGURED_COLLECTION_TRACKS
        &&& 0 < self.max_collection_pages <= MAX_CONFIGURED_COLLECTION_PAGES
        &&& 0 < self.max_download_candidates <= MAX_CONFIGURED_DOWNLOAD_CANDIDATES
        &&& 0 < self.max_playback_url_bytes <= MAX_CONFIGURED_PLAYBACK_URL_BYTES
        &&& 0 < self.max_download_info_bytes <= MAX_CONFIGURED_DOWNLOAD_INFO_BYTES
        &&& self.max_download_info_bytes <= self.http.max_response_bytes
        &&& !(self.playback_scheme == YandexMusicPlaybackScheme::HttpForPrivateNetworks
            && self.http.network_access != HttpNetworkAccess::AllowPrivateNetworks)
        &&& 0 < self.max_response_bytes <= MAX_CONFIGURED_RESPONSE_BYTES
        &&& self.max_response_bytes <= self.http.max_response_bytes
        &&& crate::remote_http::spec_remote_uri(
            trim_end_slashes(self.api_base_url@) + "/tracks/1"@,
        ) is Some
    }

    pub fn validate(&self) -> (result: Result<(), YandexMusicError>)
        ensures
            self.is_valid() ==> result is Ok,
            !self.is_valid() ==> (result matches Err(e) && e.spec_kind()
                == YandexMusicErrorKind::InvalidOptions),
    {
        let base = chars_of(self.api_base_url.as_str());
        if base.len() == 0 || utf8_length(base.as_slice()) > MAX_API_BASE_URL_BYTES
            || self.max_identifier_bytes == 0 || self.max_identifier_bytes
            > MAX_CONFIGURED_IDENTIFIER_BYTES || self.max_metadata_string_bytes == 0
            || self.max_metadata_string_bytes > MAX_CONFIGURED_METADATA_STRING_BYTES
            || self.max_artists == 0 || self.max_artists > MAX_CONFIGURED_ARTISTS
            || self.max_collection_tracks == 0 || self.max_collection_tracks
            > MAX_CONFIGURED_COLLECTION_TRACKS || self.max_collection_pages == 0
            || self.max_collection_pages > MAX_CONFIGURED_COLLECTION_PAGES
            || self.max_download_candidates == 0 || self.max_download_candidates
            > MAX_CONFIGURED_DOWNLOAD_CANDIDATES || self.max_playback_url_bytes == 0
            || self.max_playback_url_bytes > MAX_CONFIGURED_PLAYBACK_URL_BYTES
            || self.max_download_info_bytes == 0 || self.max_download_info_bytes
            > MAX_CONFIGURED_DOWNLOAD_INFO_BYTES || self.max_download_info_bytes
            > self.http.max_response_bytes || (self.playback_scheme
            == YandexMusicPlaybackScheme::HttpForPrivateNetworks && self.http.network_access
            != HttpNetworkAccess::AllowPrivateNetworks) || self.max_response_bytes == 0
            || self.max_response_bytes > MAX_CONFIGURED_RESPONSE_BYTES || self.max_response_bytes
            > self.http.max_response_bytes {
            return Err(invalid_options());
        }
        let trimmed = crate::soundcloud::trim_end_slash_chars(base.as_slice());
        let endpoint = concat_chars(trimmed.as_slice(), chars_of("/tracks/1").as_slice());
        if crate::remote_http::parse_remote_uri(string_from_chars(endpoint.as_slice()).as_str()).is_err() {
            return Err(invalid_options());
        }
        Ok(())
    }

    /// The page size of a collection request: the per-page count times the page limit, at
    /// most the collection limit.
    pub fn collection_page_size(&self, tracks_per_page: usize) -> (result: Result<
        usize,
        YandexMusicError,
    >)
        ensures
            tracks_per_page * self.max_collection_pages > usize::MAX ==> (result matches Err(e)
                && e.spec_kind() == YandexMusicErrorKind::InvalidOptions),
            tracks_per_page * self.max_collection_pages <= usize::MAX ==> (result matches Ok(n) && n
                == if tracks_per_page * self.max_collection_pages < self.max_collection_tracks {
                tracks_per_page * self.max_collection_pages
            } else {
                self.max_collection_tracks as int
            }),
    {
        match tracks_per_page.checked_mul(self.max_collection_pages) {
            Some(size) => if size < self.max_collection_tracks {
                Ok(size)
            } else {
                Ok(self.max_collection_tracks)
            },
            None => Err(invalid_options()),
        }
    }
}

// ---------------------------------------------------------------------------------------------
// Routing
// ---------------------------------------------------------------------------------------------

/// The identifier shapes the source routes.
#[derive(Clone, Debug, PartialEq, Eq)]
pub enum YandexMusicRoute {
    Track { track_id: String, album_id: Option<String>, domain: String },
    Album { album_id: String, domain: String },
    Artist { artist_id: String, domain: String },
    Playlist { owner: Option<String>, playlist_id: String, domain: String },
    Search(String),
    Recommendations(String),
}

pub enum RouteView {
    Track { track_id: Seq<char>, album_id: Option<Seq<char>>, domain: Seq<char> },
    Album { album_id: Seq<char>, domain: Seq<char> },
    Artist { artist_id: Seq<char>, domain: Seq<char> },
    Playlist { owner: Option<Seq<char>>, playlist_id: Seq<char>, domain: Seq<char> },
    Search(Seq<char>),
    Recommendations(Seq<char>),
}

impl View for YandexMusicRoute {
    type V = RouteView;

    open spec fn view(&self) -> RouteView {
        match self {
            YandexMusicRoute::Track { track_id, album_id, domain } => RouteView::Track {
                track_id: track_id@,
                album_id: opt_text(*album_id),
                domain: domain@,
            },
            YandexMusicRoute::Album { album_id, domain } => RouteView::Album {
                album_id: album_id@,
                domain: domain@,
            },
            YandexMusicRoute::Artist { artist_id, domain } => RouteView::Artist {
                artist_id: artist_id@,
                domain: domain@,
            },
            YandexMusicRoute::Playlist { owner, playlist_id, domain } => RouteView::Playlist {
                owner: opt_text(*owner),
                playlist_id: playlist_id@,
                domain: domain@,
            },
            YandexMusicRoute::Search(q) => RouteView::Search(q@),
            YandexMusicRoute::Recommendations(t) => RouteView::Recommendations(t@),
        }
    }
}

/// A numeric identifier: 1 to 32 ASCII digits.
pub open spec fn spec_valid_numeric(value: Seq<char>) -> bool {
    value.len() > 0 && value.len() <= MAX_NUMERIC_IDENTIFIER_BYTES && crate::text::all_digits(value)
}

pub fn valid_numeric_identifier(value: &[char]) -> (valid: bool)
    ensures
        valid == spec_valid_numeric(value@),
{
    if value.len() == 0 || value.len() > MAX_NUMERIC_IDENTIFIER_BYTES {
        return false;
    }
    let mut i: usize = 0;
    while i < value.len()
        invariant
            i <= value@.len(),
            forall|j: int| 0 <= j < i ==> crate::text::is_digit(#[trigger] value@[j]),
        decreases value@.len() - i,
    {
        if !('0' <= value[i] && value[i] <= '9') {
            return false;
        }
        i = i + 1;
    }
    true
}

pub open spec fn playlist_char(c: char) -> bool {
    ('a' <= c && c <= 'z') || ('A' <= c && c <= 'Z') || ('0' <= c && c <= '9') || c == '@' || c
        == '.' || c == '-'
}

/// A playlist identifier or owner: 1 to 256 ASCII letters, digits, `@`, `.` or `-`.
pub open spec fn spec_valid_playlist_component(value: Seq<char>) -> bool {
    &&& value.len() > 0
    &&& value.len() <= MAX_PLAYLIST_IDENTIFIER_BYTES
    &&& forall|i: int| 0 <= i < value.len() ==> playlist_char(#[trigger] value[i])
}

pub fn valid_playlist_component(value: &[char]) -> (valid: bool)
    ensures
        valid == spec_valid_playlist_component(value@),
{
    if value.len() == 0 || value.len() > MAX_PLAYLIST_IDENTIFIER_BYTES {
        return false;
    }
    let mut i: usize = 0;
    while i < value.len()
        invariant
            i <= value@.len(),
            forall|j: int| 0 <= j < i ==> playlist_char(#[trigger] value@[j]),
        decreases value@.len() - i,
    {
        let c = value[i];
        if !(('a' <= c && c <= 'z') || ('A' <= c && c <= 'Z') || ('0' <= c && c <= '9') || c == '@'
            || c == '.' || c == '-') {
            return false;
        }
        i = i + 1;
    }
    true
}

/// The Yandex Music country domains.
pub open spec fn spec_valid_domain(domain: Seq<char>) -> bool {
    domain == "ru"@ || domain == "com"@ || domain == "kz"@ || domain == "by"@
}

fn is_text(s: &[char], literal: &str) -> (result: bool)
    ensures
        result == (s@ == literal@),
{
    seq_equal(s, chars_of(literal).as_slice())
}

pub fn valid_domain(domain: &[char]) -> (valid: bool)
    ensures
        valid == spec_valid_domain(domain@),
{
    is_text(domain, "ru") || is_text(domain, "com") || is_text(domain, "kz") || is_text(domain, "by")
}

/// The pieces of `s` between the occurrences of `c`, as `str::split` yields them.
pub open spec fn split_all(s: Seq<char>, c: char) -> Seq<Seq<char>>
    decreases s.len(),
{
    match find_char(s, c) {
        None => seq![s],
        Some(i) => if 0 <= i < s.len() {
            seq![s.take(i)] + split_all(s.skip(i + 1), c)
        } else {
            seq![s]
        },
    }
}

fn split_all_chars(s: &[char], c: char) -> (parts: Vec<Vec<char>>)
    ensures
        crate::text::char_seqs(parts@) == split_all(s@, c),
{
    let mut parts: Vec<Vec<char>> = Vec::new();
    let mut rest = copy_range(s, 0, s.len());
    proof {
        assert(rest@ =~= s@);
        assert(crate::text::char_seqs(parts@) =~= Seq::<Seq<char>>::empty());
    }
    loop
        invariant
            crate::text::char_seqs(parts@) + split_all(rest@, c) == split_all(s@, c),
        decreases rest@.len(),
    {
        proof {
            crate::text::lemma_find_char(rest@, c);
        }
        match crate::text::find_char_index(rest.as_slice(), c) {
            None => {
                let ghost before = crate::text::char_seqs(parts@);
                let ghost last = rest@;
                parts.push(rest);
                proof {
                    assert(crate::text::char_seqs(parts@) =~= before.push(last));
                    assert(before + seq![last] =~= before.push(last));
                }
                return parts;
            },
            Some(i) => {
                let n = rest.len();
                let head = copy_range(rest.as_slice(), 0, i);
                let tail = copy_range(rest.as_slice(), i + 1, n);
                let ghost before = crate::text::char_seqs(parts@);
                proof {
                    assert(head@ =~= rest@.take(i as int));
                    assert(tail@ =~= rest@.skip(i + 1));
                }
                let ghost h = head@;
                parts.push(head);
                proof {
                    assert(crate::text::char_seqs(parts@) =~= before.push(h));
                    assert(before + (seq![h] + split_all(tail@, c)) =~= before.push(h) + split_all(
                        tail@,
                        c,
                    ));
                }
                rest = tail;
            },
        }
    }
}

/// The route that a path of a `music.yandex.<domain>` page names.
pub open spec fn path_route(parts: Seq<Seq<char>>, domain: Seq<char>) -> Option<RouteView> {
    if parts.len() == 2 && parts[0] == "track"@ && spec_valid_numeric(parts[1]) {
        Some(RouteView::Track { track_id: parts[1], album_id: None, domain })
    } else if parts.len() == 4 && parts[0] == "album"@ && parts[2] == "track"@ && spec_valid_numeric(
        parts[1],
    ) && spec_valid_numeric(parts[3]) {
        Some(RouteView::Track { track_id: parts[3], album_id: Some(parts[1]), domain })
    } else if parts.len() == 2 && parts[0] == "album"@ && spec_valid_numeric(parts[1]) {
        Some(RouteView::Album { album_id: parts[1], domain })
    } else if (parts.len() == 2 || (parts.len() == 3 && parts[2] == "tracks"@)) && parts[0]
        == "artist"@ && spec_valid_numeric(parts[1]) {
        Some(RouteView::Artist { artist_id: parts[1], domain })
    } else if parts.len() == 4 && parts[0] == "users"@ && parts[2] == "playlists"@
        && spec_valid_playlist_component(parts[1]) && spec_valid_numeric(parts[3]) {
        Some(RouteView::Playlist { owner: Some(parts[1]), playlist_id: parts[3], domain })
    } else if parts.len() == 2 && parts[0] == "playlists"@ && spec_valid_playlist_component(
        parts[1],
    ) {
        Some(RouteView::Playlist { owner: None, playlist_id: parts[1], domain })
    } else {
        None
    }
}

/// `s` without one trailing `/`.
pub open spec fn strip_one_slash(s: Seq<char>) -> Seq<char> {
    if s.len() > 0 && s.last() == '/' {
        s.drop_last()
    } else {
        s
    }
}

/// A page URL of `music.yandex.{ru,com,kz,by}` (scheme optional, query dropped) naming a track,
/// album, artist or playlist.
pub open spec fn spec_route_url(identifier: Seq<char>) -> Option<RouteView> {
    if contains_char(identifier, '#') {
        None
    } else {
        let rest = without_scheme(identifier);
        let base = match split_once(rest, '?') {
            Some((head, _)) => head,
            None => rest,
        };
        match split_once(base, '/') {
            None => None,
            Some((host, path)) => if contains_char(host, '@') || !has_prefix(
                host,
                "music.yandex."@,
            ) {
                None
            } else {
                let domain = host.skip("music.yandex."@.len() as int);
                if !spec_valid_domain(domain) {
                    None
                } else {
                    path_route(split_all(strip_one_slash(path), '/'), domain)
                }
            },
        }
    }
}

/// Routes `ymsearch:<query>` to a search and `ymrec:<track>` to recommendations (when allowed),
/// and page URLs by [`spec_route_url`], all within the identifier limit.
pub open spec fn spec_route_yandex(identifier: Seq<char>, options: YandexMusicSourceOptions) -> Option<
    RouteView,
> {
    if identifier.len() == 0 || utf8_len(identifier) > options.max_identifier_bytes {
        None
    } else if has_prefix(identifier, "ymsearch:"@) {
        let query = trim(identifier.skip("ymsearch:"@.len() as int));
        if options.allow_search && query.len() > 0 && utf8_len(query)
            <= options.max_metadata_string_bytes {
            Some(RouteView::Search(query))
        } else {
            None
        }
    } else if has_prefix(identifier, "ymrec:"@) {
        let track = identifier.skip("ymrec:"@.len() as int);
        if options.allow_recommendations && spec_valid_numeric(track) {
            Some(RouteView::Recommendations(track))
        } else {
            None
        }
    } else {
        spec_route_url(identifier)
    }
}

fn route_path(parts: &Vec<Vec<char>>, domain: &[char]) -> (route: Option<YandexMusicRoute>)
    ensures
        match path_route(crate::text::char_seqs(parts@), domain@) {
            Some(r) => route matches Some(x) && x@ == r,
            None => route is None,
        },
{
    let ghost ps = crate::text::char_seqs(parts@);
    let n = parts.len();
    let d = string_from_chars(domain);
    if n >= 1 {
        proof {
            assert(ps[0] == parts@[0]@);
        }
    }
    if n >= 2 {
        proof {
            assert(ps[1] == parts@[1]@);
        }
    }
    if n >= 3 {
        proof {
            assert(ps[2] == parts@[2]@);
        }
    }
    if n >= 4 {
        proof {
            assert(ps[3] == parts@[3]@);
        }
    }
    if n == 2 && is_text(parts[0].as_slice(), "track") && valid_numeric_identifier(
        parts[1].as_slice(),
    ) {
        return Some(
            YandexMusicRoute::Track {
                track_id: string_from_chars(parts[1].as_slice()),
                album_id: None,
                domain: d,
            },
        );
    }
    if n == 4 && is_text(parts[0].as_slice(), "album") && is_text(parts[2].as_slice(), "track")
        && valid_numeric_identifier(parts[1].as_slice()) && valid_numeric_identifier(
        parts[3].as_slice(),
    ) {
        return Some(
            YandexMusicRoute::Track {
                track_id: string_from_chars(parts[3].as_slice()),
                album_id: Some(string_from_chars(parts[1].as_slice())),
                domain: d,
            },
        );
    }
    if n == 2 && is_text(parts[0].as_slice(), "album") && valid_numeric_identifier(
        parts[1].as_slice(),
    ) {
        return Some(
            YandexMusicRoute::Album { album_id: string_from_chars(parts[1].as_slice()), domain: d },
        );
    }
    if (n == 2 || (n == 3 && is_text(parts[2].as_slice(), "tracks"))) && is_text(
        parts[0].as_slice(),
        "artist",
    ) && valid_numeric_identifier(parts[1].as_slice()) {
        return Some(
            YandexMusicRoute::Artist { artist_id: string_from_chars(parts[1].as_slice()), domain: d },
        );
    }
    if n == 4 && is_text(parts[0].as_slice(), "users") && is_text(parts[2].as_slice(), "playlists")
        && valid_playlist_component(parts[1].as_slice()) && valid_numeric_identifier(
        parts[3].as_slice(),
    ) {
        return Some(
            YandexMusicRoute::Playlist {
                owner: Some(string_from_chars(parts[1].as_slice())),
                playlist_id: string_from_chars(parts[3].as_slice()),
                domain: d,
            },
        );
    }
    if n == 2 && is_text(parts[0].as_slice(), "playlists") && valid_playlist_component(
        parts[1].as_slice(),
    ) {
        return Some(
            YandexMusicRoute::Playlist {
                owner: None,
                playlist_id: string_from_chars(parts[1].as_slice()),
                domain: d,
            },
        );
    }
    None
}

fn route_url(text: &[char]) -> (route: Option<YandexMusicRoute>)
    ensures
        match spec_route_url(text@) {
            Some(r) => route matches Some(x) && x@ == r,
            None => route is None,
        },
{
    if contains(text, '#') {
        return None;
    }
    let rest = crate::soundcloud::strip_scheme(text);
    let base = match split_once_chars(rest.as_slice(), '?') {
        Some((head, _)) => head,
        None => rest,
    };
    let (host, path) = split_once_chars(base.as_slice(), '/')?;
    let prefix = chars_of("music.yandex.");
    if contains(host.as_slice(), '@') || !starts_with(host.as_slice(), prefix.as_slice()) {
        return None;
    }
    let domain = copy_range(host.as_slice(), prefix.len(), host.len());
    proof {
        assert(domain@ =~= host@.skip("music.yandex."@.len() as int));
    }
    if !valid_domain(domain.as_slice()) {
        return None;
    }
    let stripped = if path.len() > 0 && path[path.len() - 1] == '/' {
        let s = copy_range(path.as_slice(), 0, path.len() - 1);
        proof {
            assert(s@ =~= path@.drop_last());
        }
        s
    } else {
        path
    };
    let parts = split_all_chars(stripped.as_slice(), '/');
    route_path(&parts, domain.as_slice())
}

/// Routes one input without network access.
pub fn route_yandex_music_identifier(identifier: &str, options: &YandexMusicSourceOptions) -> (route:
    Option<YandexMusicRoute>)
    ensures
        match spec_route_yandex(identifier@, *options) {
            Some(r) => route matches Some(x) && x@ == r,
            None => route is None,
        },
{
    let text = chars_of(identifier);
    if text.len() == 0 || utf8_length(text.as_slice()) > options.max_identifier_bytes {
        return None;
    }
    let search = chars_of("ymsearch:");
    if starts_with(text.as_slice(), search.as_slice()) {
        let rest = copy_range(text.as_slice(), search.len(), text.len());
        proof {
            assert(rest@ =~= identifier@.skip("ymsearch:"@.len() as int));
        }
        let query = trim_chars(rest.as_slice());
        if options.allow_search && query.len() > 0 && utf8_length(query.as_slice())
            <= options.max_metadata_string_bytes {
            return Some(YandexMusicRoute::Search(string_from_chars(query.as_slice())));
        }
        return None;
    }
    let rec = chars_of("ymrec:");
    if starts_with(text.as_slice(), rec.as_slice()) {
        let track = copy_range(text.as_slice(), rec.len(), text.len());
        proof {
            assert(track@ =~= identifier@.skip("ymrec:"@.len() as int));
        }
        if options.allow_recommendations && valid_numeric_identifier(track.as_slice()) {
            return Some(YandexMusicRoute::Recommendations(string_from_chars(track.as_slice())));
        }
        return None;
    }
    route_url(text.as_slice())
}

// ---------------------------------------------------------------------------------------------
// Playback URLs
// ---------------------------------------------------------------------------------------------

/// One signed MP3 URL with its bit rate. The URL and its signing inputs are always redacted
/// from diagnostics.
#[derive(Clone, PartialEq, Eq)]
pub struct YandexMusicPlaybackUrl {
    url: String,
    bitrate_kbps: u32,
}

impl YandexMusicPlaybackUrl {
    pub closed spec fn spec_url(&self) -> Seq<char> {
        self.url@
    }

    pub closed spec fn spec_bitrate(&self) -> u32 {
        self.bitrate_kbps
    }

    pub fn as_str(&self) -> (url: &str)
        ensures
            url@ == self.spec_url(),
    {
        self.url.as_str()
    }

    pub fn bitrate_kbps(&self) -> (bitrate: u32)
        ensures
            bitrate == self.spec_bitrate(),
    {
        self.bitrate_kbps
    }
}

} // verus!

verus! {

// ---------------------------------------------------------------------------------------------
// Download candidates and origins
// ---------------------------------------------------------------------------------------------

/// One entry of a `download-info` answer.
#[derive(Clone, Debug, PartialEq, Eq)]
pub struct YandexDownloadCandidate {
    pub codec: String,
    pub bitrate_in_kbps: u32,
    pub download_info_url: String,
}

pub struct CandidateView {
    pub codec: Seq<char>,
    pub bitrate_in_kbps: u32,
    pub download_info_url: Seq<char>,
}

pub open spec fn candidates_view(v: Seq<YandexDownloadCandidate>) -> Seq<CandidateView> {
    v.map_values(
        |c: YandexDownloadCandidate|
            CandidateView {
                codec: c.codec@,
                bitrate_in_kbps: c.bitrate_in_kbps,
                download_info_url: c.download_info_url@,
            },
    )
}

/// A non-empty string of at most `max` bytes.
pub open spec fn bounded_nonempty(value: Seq<char>, max: int) -> bool {
    value.len() > 0 && utf8_len(value) <= max
}

pub fn is_bounded_nonempty(value: &str, max: usize) -> (result: bool)
    ensures
        result == bounded_nonempty(value@, max as int),
{
    let chars = chars_of(value);
    chars.len() > 0 && utf8_length(chars.as_slice()) <= max
}

/// Scans the candidates: every codec is 1 to 16 bytes; MP3 candidates need a bit rate in
/// 1..=10000 and a bounded download-info URL that is a valid request URL; the MP3 candidate with
/// the highest bit rate wins, the last on a tie. The outer `None` is an invalid response.
pub open spec fn candidate_fold(
    best: Option<CandidateView>,
    cs: Seq<CandidateView>,
    options: YandexMusicSourceOptions,
) -> Option<Option<CandidateView>>
    decreases cs.len(),
{
    if cs.len() == 0 {
        Some(best)
    } else {
        let c = cs[0];
        if !bounded_nonempty(c.codec, 16) {
            None
        } else if c.codec != "mp3"@ {
            candidate_fold(best, cs.drop_first(), options)
        } else if c.bitrate_in_kbps == 0 || c.bitrate_in_kbps > MAX_BITRATE_KBPS || !bounded_nonempty(
            c.download_info_url,
            options.max_playback_url_bytes as int,
        ) || crate::remote_http::spec_remote_uri(c.download_info_url) is None {
            None
        } else {
            let replace = match best {
                None => true,
                Some(b) => c.bitrate_in_kbps >= b.bitrate_in_kbps,
            };
            candidate_fold(
                if replace {
                    Some(c)
                } else {
                    best
                },
                cs.drop_first(),
                options,
            )
        }
    }
}

pub open spec fn spec_download_candidate(
    candidates: Option<Seq<CandidateView>>,
    options: YandexMusicSourceOptions,
) -> Option<Option<CandidateView>> {
    let cs = match candidates {
        Some(c) => c,
        None => Seq::empty(),
    };
    if cs.len() > options.max_download_candidates {
        None
    } else {
        candidate_fold(None, cs, options)
    }
}

pub open spec fn opt_candidate(c: Option<YandexDownloadCandidate>) -> Option<CandidateView> {
    match c {
        Some(x) => Some(
            CandidateView {
                codec: x.codec@,
                bitrate_in_kbps: x.bitrate_in_kbps,
                download_info_url: x.download_info_url@,
            },
        ),
        None => None,
    }
}

fn copy_candidate(c: &YandexDownloadCandidate) -> (copy: YandexDownloadCandidate)
    ensures
        opt_candidate(Some(copy)) == opt_candidate(Some(*c)),
{
    YandexDownloadCandidate {
        codec: copy_text(c.codec.as_str()),
        bitrate_in_kbps: c.bitrate_in_kbps,
        download_info_url: copy_text(c.download_info_url.as_str()),
    }
}

/// Chooses the MP3 download candidate with the highest bit rate.
pub fn parse_download_candidates(
    candidates: &Option<Vec<YandexDownloadCandidate>>,
    options: &YandexMusicSourceOptions,
) -> (result: Result<Option<YandexDownloadCandidate>, YandexMusicError>)
    ensures
        match spec_download_candidate(
            match candidates {
                Some(v) => Some(candidates_view(v@)),
                None => None,
            },
            *options,
        ) {
            Some(choice) => result matches Ok(c) && opt_candidate(c) == choice,
            None => result matches Err(e) && e.spec_kind() == YandexMusicErrorKind::InvalidResponse,
        },
{
    let empty: Vec<YandexDownloadCandidate> = Vec::new();
    let list = match candidates {
        Some(v) => v,
        None => &empty,
    };
    proof {
        assert(candidates_view(empty@) =~= Seq::<CandidateView>::empty());
    }
    if list.len() > options.max_download_candidates {
        return Err(invalid_response());
    }
    let ghost all = candidates_view(list@);
    let mut best: Option<YandexDownloadCandidate> = None;
    let mut i: usize = 0;
    proof {
        assert(all.skip(0) =~= all);
    }
    while i < list.len()
        invariant
            i <= list@.len(),
            all == candidates_view(list@),
            spec_download_candidate(
                match candidates {
                    Some(v) => Some(candidates_view(v@)),
                    None => None,
                },
                *options,
            ) == candidate_fold(None, all, *options),
            candidate_fold(None, all, *options) == candidate_fold(
                opt_candidate(best),
                all.skip(i as int),
                *options,
            ),
        decreases list@.len() - i,
    {
        proof {
            assert(all.skip(i as int)[0] == all[i as int]);
            assert(all.skip(i as int).drop_first() =~= all.skip(i + 1));
        }
        let c = &list[i];
        if !is_bounded_nonempty(c.codec.as_str(), 16) {
            return Err(invalid_response());
        }
        if is_text(chars_of(c.codec.as_str()).as_slice(), "mp3") {
            if c.bitrate_in_kbps == 0 || c.bitrate_in_kbps > MAX_BITRATE_KBPS || !is_bounded_nonempty(
                c.download_info_url.as_str(),
                options.max_playback_url_bytes,
            ) || crate::remote_http::parse_remote_uri(c.download_info_url.as_str()).is_err() {
                return Err(invalid_response());
            }
            let replace = match &best {
                None => true,
                Some(b) => c.bitrate_in_kbps >= b.bitrate_in_kbps,
            };
            if replace {
                best = Some(copy_candidate(c));
            }
        }
        i = i + 1;
    }
    proof {
        assert(all.skip(i as int) =~= Seq::<CandidateView>::empty());
    }
    Ok(best)
}

/// `a` and `b` are equal ignoring ASCII letter case.
pub open spec fn eq_ignore_case(a: Seq<char>, b: Seq<char>) -> bool {
    ascii_lowercase(a) == ascii_lowercase(b)
}

/// `yandex.net`, `yandex.ru`, `yandex.com` (any letter case) or a subdomain of one of them.
pub open spec fn spec_yandex_download_host(host: Seq<char>) -> bool {
    ||| eq_ignore_case(host, "yandex.net"@)
    ||| (has_suffix(host, "yandex.net"@) && has_suffix(host.take(host.len() - "yandex.net"@.len()), "."@))
    ||| eq_ignore_case(host, "yandex.ru"@)
    ||| (has_suffix(host, "yandex.ru"@) && has_suffix(host.take(host.len() - "yandex.ru"@.len()), "."@))
    ||| eq_ignore_case(host, "yandex.com"@)
    ||| (has_suffix(host, "yandex.com"@) && has_suffix(host.take(host.len() - "yandex.com"@.len()), "."@))
}

fn has_dotted_suffix(host: &[char], suffix: &str) -> (result: bool)
    ensures
        result == (eq_ignore_case(host@, suffix@) || (has_suffix(host@, suffix@) && has_suffix(
            host@.take(host@.len() - suffix@.len()),
            "."@,
        ))),
{
    let s = chars_of(suffix);
    if seq_equal(
        to_ascii_lowercase(host).as_slice(),
        to_ascii_lowercase(s.as_slice()).as_slice(),
    ) {
        return true;
    }
    if !crate::bandcamp::ends_with(host, s.as_slice()) {
        return false;
    }
    let prefix = copy_range(host, 0, host.len() - s.len());
    proof {
        assert(prefix@ =~= host@.take(host@.len() - suffix@.len()));
    }
    crate::bandcamp::ends_with(prefix.as_slice(), chars_of(".").as_slice())
}

pub fn is_yandex_download_host(host: &[char]) -> (result: bool)
    ensures
        result == spec_yandex_download_host(host@),
{
    has_dotted_suffix(host, "yandex.net") || has_dotted_suffix(host, "yandex.ru")
        || has_dotted_suffix(host, "yandex.com")
}

/// Where download information may be fetched from: an HTTPS URL on the API host (any letter
/// case) or an approved Yandex host, or plain HTTP on the API host with private networks
/// allowed. A malformed API base is an option error.
pub open spec fn spec_download_origin(url: Seq<char>, options: YandexMusicSourceOptions) -> Result<
    (),
    YandexMusicErrorKind,
> {
    match crate::uri::parsed_uri(url) {
        None => Err(YandexMusicErrorKind::InvalidResponse),
        Some(u) => match crate::uri::parsed_uri(options.api_base_url@) {
            None => Err(YandexMusicErrorKind::InvalidOptions),
            Some(api) => if u.authority is None || u.host is None {
                Err(YandexMusicErrorKind::InvalidResponse)
            } else if api.authority is None || api.host is None {
                Err(YandexMusicErrorKind::InvalidOptions)
            } else {
                let host = u.host->0;
                let same = eq_ignore_case(host, api.host->0);
                if !same && !spec_yandex_download_host(host) {
                    Err(YandexMusicErrorKind::InvalidResponse)
                } else if u.scheme == Some("https"@) {
                    Ok(())
                } else if u.scheme == Some("http"@) && same && options.http.network_access
                    == HttpNetworkAccess::AllowPrivateNetworks {
                    Ok(())
                } else {
                    Err(YandexMusicErrorKind::InvalidResponse)
                }
            },
        },
    }
}

pub fn validate_download_info_origin(url: &str, options: &YandexMusicSourceOptions) -> (result:
    Result<(), YandexMusicError>)
    ensures
        match spec_download_origin(url@, *options) {
            Ok(()) => result is Ok,
            Err(kind) => result matches Err(e) && e.spec_kind() == kind,
        },
{
    let uri = match crate::uri::parse_uri(chars_of(url).as_slice()) {
        Some(u) => u,
        None => {
            return Err(invalid_response());
        },
    };
    let api = match crate::uri::parse_uri(chars_of(options.api_base_url.as_str()).as_slice()) {
        Some(a) => a,
        None => {
            return Err(invalid_options());
        },
    };
    let host = match (&uri.authority, &uri.host) {
        (Some(_), Some(h)) => h,
        _ => {
            return Err(invalid_response());
        },
    };
    let api_host = match (&api.authority, &api.host) {
        (Some(_), Some(h)) => h,
        _ => {
            return Err(invalid_options());
        },
    };
    let same = seq_equal(
        to_ascii_lowercase(host.as_slice()).as_slice(),
        to_ascii_lowercase(api_host.as_slice()).as_slice(),
    );
    if !same && !is_yandex_download_host(host.as_slice()) {
        return Err(invalid_response());
    }
    if opt_seq_is(&uri.scheme, "https") {
        return Ok(());
    }
    if opt_seq_is(&uri.scheme, "http") && same && options.http.network_access
        == HttpNetworkAccess::AllowPrivateNetworks {
        return Ok(());
    }
    Err(invalid_response())
}

// ---------------------------------------------------------------------------------------------
// Signed media URLs
// ---------------------------------------------------------------------------------------------

/// The fields of a download-info document.
#[derive(Clone, Debug, PartialEq, Eq)]
pub struct YandexDownloadInfo {
    pub host: String,
    pub path: String,
    pub timestamp: String,
    pub secret: String,
}

/// The MD5 digest of some bytes.
pub uninterp spec fn md5_digest(bytes: Seq<u8>) -> Seq<u8>;

/// Calls `<md5::Md5 as md5::Digest>::digest` on the UTF-8 bytes of a text. MD5 takes pages to
/// state, so the 16-byte digest is named [`md5_digest`], a function of the bytes alone.
#[verifier::external_body]
fn md5_of(text: &str) -> (digest: [u8; 16])
    ensures
        digest@ == md5_digest(vstd::utf8::encode_utf8(text@)),
{
    let digest = md5::Md5::digest(text.as_bytes());
    let mut out = [0u8; 16];
    out.copy_from_slice(&digest);
    out
}

pub open spec fn hex_lower(n: u8) -> char {
    if n < 10 {
        (n + 48) as char
    } else {
        (n + 87) as char
    }
}

/// Bytes as lowercase hexadecimal, two digits each.
pub open spec fn hex_text(bytes: Seq<u8>) -> Seq<char>
    decreases bytes.len(),
{
    if bytes.len() == 0 {
        Seq::empty()
    } else {
        seq![hex_lower(bytes[0] / 16), hex_lower(bytes[0] % 16)] + hex_text(bytes.drop_first())
    }
}

proof fn lemma_hex_text_push(bytes: Seq<u8>, b: u8)
    ensures
        hex_text(bytes.push(b)) == hex_text(bytes) + seq![hex_lower(b / 16), hex_lower(b % 16)],
    decreases bytes.len(),
{
    if bytes.len() == 0 {
        assert(bytes.push(b).drop_first() =~= Seq::<u8>::empty());
        assert(hex_text(Seq::<u8>::empty()) =~= Seq::<char>::empty());
        assert(hex_text(bytes.push(b)) =~= seq![hex_lower(b / 16), hex_lower(b % 16)]);
    } else {
        lemma_hex_text_push(bytes.drop_first(), b);
        assert(bytes.push(b).drop_first() =~= bytes.drop_first().push(b));
        assert(hex_text(bytes.push(b)) =~= hex_text(bytes) + seq![hex_lower(b / 16), hex_lower(b % 16)]);
    }
}

fn hex_string(bytes: &[u8]) -> (text: Vec<char>)
    ensures
        text@ == hex_text(bytes@),
{
    let mut out: Vec<char> = Vec::new();
    let mut i: usize = 0;
    proof {
        assert(bytes@.take(0) =~= Seq::<u8>::empty());
    }
    while i < bytes.len()
        invariant
            i <= bytes@.len(),
            out@ == hex_text(bytes@.take(i as int)),
        decreases bytes@.len() - i,
    {
        let b = bytes[i];
        let hi = b / 16;
        let lo = b % 16;
        let c1 = if hi < 10 { (hi + 48) as char } else { (hi + 87) as char };
        let c2 = if lo < 10 { (lo + 48) as char } else { (lo + 87) as char };
        proof {
            assert(bytes@.take(i + 1) =~= bytes@.take(i as int).push(b));
            lemma_hex_text_push(bytes@.take(i as int), b);
        }
        let ghost before = out@;
        out.push(c1);
        out.push(c2);
        proof {
            assert(out@ =~= before + seq![hex_lower(b / 16), hex_lower(b % 16)]);
        }
        i = i + 1;
    }
    proof {
        assert(bytes@.take(bytes@.len() as int) =~= bytes@);
    }
    out
}

pub open spec fn host_char_ok(c: char) -> bool {
    !(c == ' ' || c == '\t' || c == '\n' || c == '\x0C' || c == '\r' || c == '/' || c == '@' || c
        == '?' || c == '#')
}

pub open spec fn path_char_ok(c: char) -> bool {
    '!' <= c && c <= '~' && c != '?' && c != '#' && c != '\\'
}

/// The download-info fields are usable: a bounded host without whitespace or URL delimiters, a
/// path of visible ASCII starting with `/` and without `?`, `#` or `\`, a timestamp of 1 to 32
/// digits, and a bounded visible-ASCII secret.
pub open spec fn spec_download_fields_ok(d: YandexDownloadInfo, options: YandexMusicSourceOptions) -> bool {
    let max = options.max_playback_url_bytes as int;
    &&& bounded_nonempty(d.host@, max)
    &&& forall|i: int| 0 <= i < d.host@.len() ==> host_char_ok(#[trigger] d.host@[i])
    &&& has_prefix(d.path@, "/"@)
    &&& forall|i: int| 0 <= i < d.path@.len() ==> path_char_ok(#[trigger] d.path@[i])
    &&& spec_valid_numeric(d.timestamp@)
    &&& bounded_nonempty(d.secret@, max)
    &&& forall|i: int| 0 <= i < d.secret@.len() ==> crate::soundcloud::is_graphic(#[trigger] d.secret@[i])
}

pub open spec fn signing_input(d: YandexDownloadInfo) -> Seq<char> {
    "XGRlBW9FXlekgbPrRHuSiA"@ + d.path@ + d.secret@
}

/// The signed MP3 URL of a download-info document.
pub open spec fn signed_url(d: YandexDownloadInfo, options: YandexMusicSourceOptions) -> Seq<char> {
    let scheme = match options.playback_scheme {
        YandexMusicPlaybackScheme::Https => "https"@,
        YandexMusicPlaybackScheme::HttpForPrivateNetworks => "http"@,
    };
    scheme + "://"@ + d.host@ + "/get-mp3/"@ + hex_text(
        md5_digest(vstd::utf8::encode_utf8(signing_input(d))),
    ) + "/"@ + d.timestamp@ + d.path@
}

pub open spec fn spec_signed_playback(d: YandexDownloadInfo, options: YandexMusicSourceOptions) -> Option<
    Seq<char>,
> {
    let max = options.max_playback_url_bytes as int;
    if !spec_download_fields_ok(d, options) || utf8_len(signing_input(d)) > max {
        None
    } else {
        let url = signed_url(d, options);
        if utf8_len(url) > max || crate::remote_http::spec_remote_uri(url) is None {
            None
        } else {
            Some(url)
        }
    }
}

fn all_chars(s: &[char], kind: u8) -> (result: bool)
    requires
        kind < 3,
    ensures
        kind == 0 ==> result == forall|i: int| 0 <= i < s@.len() ==> host_char_ok(#[trigger] s@[i]),
        kind == 1 ==> result == forall|i: int| 0 <= i < s@.len() ==> path_char_ok(#[trigger] s@[i]),
        kind == 2 ==> result == forall|i: int|
            0 <= i < s@.len() ==> crate::soundcloud::is_graphic(#[trigger] s@[i]),
{
    let mut i: usize = 0;
    while i < s.len()
        invariant
            i <= s@.len(),
            kind < 3,
            kind == 0 ==> forall|j: int| 0 <= j < i ==> host_char_ok(#[trigger] s@[j]),
            kind == 1 ==> forall|j: int| 0 <= j < i ==> path_char_ok(#[trigger] s@[j]),
            kind == 2 ==> forall|j: int| 0 <= j < i ==> crate::soundcloud::is_graphic(#[trigger] s@[j]),
        decreases s@.len() - i,
    {
        let c = s[i];
        let ok = if kind == 0 {
            !(c == ' ' || c == '\t' || c == '\n' || c == '\x0C' || c == '\r' || c == '/' || c == '@'
                || c == '?' || c == '#')
        } else if kind == 1 {
            '!' <= c && c <= '~' && c != '?' && c != '#' && c != '\\'
        } else {
            '!' <= c && c <= '~'
        };
        if !ok {
            return false;
        }
        i = i + 1;
    }
    true
}

/// Builds the signed MP3 URL of a download-info document.
pub fn build_signed_playback_url(
    download: &YandexDownloadInfo,
    bitrate_kbps: u32,
    options: &YandexMusicSourceOptions,
) -> (result: Result<YandexMusicPlaybackUrl, YandexMusicError>)
    ensures
        match spec_signed_playback(*download, *options) {
            Some(url) => result matches Ok(p) && p.spec_url() == url && p.spec_bitrate()
                == bitrate_kbps,
            None => result matches Err(e) && e.spec_kind() == YandexMusicErrorKind::InvalidResponse,
        },
{
    let max = options.max_playback_url_bytes;
    let host = chars_of(download.host.as_str());
    let path = chars_of(download.path.as_str());
    let timestamp = chars_of(download.timestamp.as_str());
    let secret = chars_of(download.secret.as_str());
    if !is_bounded_nonempty(download.host.as_str(), max) || !all_chars(host.as_slice(), 0)
        || !starts_with(path.as_slice(), chars_of("/").as_slice()) || !all_chars(path.as_slice(), 1)
        || !valid_numeric_identifier(timestamp.as_slice()) || !is_bounded_nonempty(
        download.secret.as_str(),
        max,
    ) || !all_chars(secret.as_slice(), 2) {
        return Err(invalid_response());
    }
    let mut input = concat_chars(chars_of("XGRlBW9FXlekgbPrRHuSiA").as_slice(), path.as_slice());
    input = concat_chars(input.as_slice(), secret.as_slice());
    if utf8_length(input.as_slice()) > max {
        return Err(invalid_response());
    }
    let digest = md5_of(string_from_chars(input.as_slice()).as_str());
    let checksum = hex_string(&digest);
    let scheme = match options.playback_scheme {
        YandexMusicPlaybackScheme::Https => chars_of("https"),
        YandexMusicPlaybackScheme::HttpForPrivateNetworks => chars_of("http"),
    };
    let mut url = concat_chars(scheme.as_slice(), chars_of("://").as_slice());
    url = concat_chars(url.as_slice(), host.as_slice());
    url = concat_chars(url.as_slice(), chars_of("/get-mp3/").as_slice());
    url = concat_chars(url.as_slice(), checksum.as_slice());
    url = concat_chars(url.as_slice(), chars_of("/").as_slice());
    url = concat_chars(url.as_slice(), timestamp.as_slice());
    url = concat_chars(url.as_slice(), path.as_slice());
    let text = string_from_chars(url.as_slice());
    if utf8_length(url.as_slice()) > max || crate::remote_http::parse_remote_uri(text.as_str()).is_err() {
        return Err(invalid_response());
    }
    Ok(YandexMusicPlaybackUrl { url: text, bitrate_kbps })
}

} // verus!

verus! {

// ---------------------------------------------------------------------------------------------
// Covers, artists and tracks
// ---------------------------------------------------------------------------------------------

/// `pattern` occurs in `s`.
pub open spec fn contains_text(s: Seq<char>, pattern: Seq<char>) -> bool {
    exists|i: int| 0 <= i <= s.len() && #[trigger] has_prefix(s.skip(i), pattern)
}

fn find_text(s: &[char], pattern: &str) -> (found: bool)
    ensures
        found == contains_text(s@, pattern@),
{
    let p = chars_of(pattern);
    let mut i: usize = 0;
    loop
        invariant
            i <= s@.len(),
            p@ == pattern@,
            forall|j: int| 0 <= j < i ==> !#[trigger] has_prefix(s@.skip(j), pattern@),
        decreases s@.len() - i,
    {
        let rest = copy_range(s, i, s.len());
        proof {
            assert(rest@ =~= s@.skip(i as int));
        }
        if starts_with(rest.as_slice(), p.as_slice()) {
            return true;
        }
        if i == s.len() {
            return false;
        }
        i = i + 1;
    }
}

pub open spec fn ascii_space(c: char) -> bool {
    c == ' ' || c == '\t' || c == '\n' || c == '\x0C' || c == '\r'
}

/// A cover URI: bounded, with no scheme separator, no `@` and no whitespace; it becomes an
/// HTTPS URL with its size placeholder `%%` set to `400x400`, which must be bounded and a valid
/// request URL.
pub open spec fn spec_cover_uri(cover: Seq<char>, max: int) -> Option<Seq<char>> {
    if !bounded_nonempty(cover, max) || contains_text(cover, "://"@) || contains_char(cover, '@')
        || exists|i: int| 0 <= i < cover.len() && ascii_space(#[trigger] cover[i]) {
        None
    } else {
        let url = "https://"@ + crate::soundcloud::replace_all(cover, "%%"@, "400x400"@);
        if utf8_len(url) > max || crate::remote_http::spec_remote_uri(url) is None {
            None
        } else {
            Some(url)
        }
    }
}

pub fn parse_cover_uri(cover: &str, max: usize) -> (result: Result<String, YandexMusicError>)
    ensures
        match spec_cover_uri(cover@, max as int) {
            Some(url) => result matches Ok(u) && u@ == url,
            None => result matches Err(e) && e.spec_kind() == YandexMusicErrorKind::InvalidResponse,
        },
{
    let text = chars_of(cover);
    if !is_bounded_nonempty(cover, max) || find_text(text.as_slice(), "://") || contains(
        text.as_slice(),
        '@',
    ) {
        return Err(invalid_response());
    }
    let mut i: usize = 0;
    while i < text.len()
        invariant
            i <= text@.len(),
            text@ == cover@,
            forall|j: int| 0 <= j < i ==> !ascii_space(#[trigger] text@[j]),
        decreases text@.len() - i,
    {
        let c = text[i];
        if c == ' ' || c == '\t' || c == '\n' || c == '\x0C' || c == '\r' {
            assert(ascii_space(text@[i as int]));
            return Err(invalid_response());
        }
        i = i + 1;
    }
    proof {
        reveal_strlit("%%");
    }
    let replaced = crate::soundcloud::replace_text(text.as_slice(), "%%", "400x400");
    let url = concat_chars(chars_of("https://").as_slice(), replaced.as_slice());
    let result = string_from_chars(url.as_slice());
    if utf8_length(url.as_slice()) > max || crate::remote_http::parse_remote_uri(result.as_str()).is_err() {
        return Err(invalid_response());
    }
    Ok(result)
}

/// An optional cover: absent stays absent, present must be a valid cover URI.
pub open spec fn spec_optional_cover(cover: Option<Seq<char>>, max: int) -> Option<Option<Seq<char>>> {
    match cover {
        None => Some(None),
        Some(c) => match spec_cover_uri(c, max) {
            None => None,
            Some(u) => Some(Some(u)),
        },
    }
}

pub fn parse_optional_cover(cover: &Option<String>, max: usize) -> (result: Result<
    Option<String>,
    YandexMusicError,
>)
    ensures
        match spec_optional_cover(opt_text(*cover), max as int) {
            Some(c) => result matches Ok(r) && opt_text(r) == c,
            None => result matches Err(e) && e.spec_kind() == YandexMusicErrorKind::InvalidResponse,
        },
{
    match cover {
        None => Ok(None),
        Some(c) => Ok(Some(parse_cover_uri(c.as_str(), max)?)),
    }
}

/// The preferred cover: the Open Graph image, else the cover URI.
pub open spec fn preferred_cover(og_image: Option<String>, cover_uri: Option<String>) -> Option<
    Seq<char>,
> {
    match og_image {
        Some(o) => Some(o@),
        None => opt_text(cover_uri),
    }
}

fn choose_cover(og_image: &Option<String>, cover_uri: &Option<String>) -> (cover: Option<String>)
    ensures
        opt_text(cover) == preferred_cover(*og_image, *cover_uri),
{
    match og_image {
        Some(o) => Some(copy_text(o.as_str())),
        None => crate::track::copy_opt_text(cover_uri),
    }
}

/// Artist names joined with `, `.
pub open spec fn joined(names: Seq<Seq<char>>) -> Seq<char>
    decreases names.len(),
{
    if names.len() == 0 {
        Seq::empty()
    } else if names.len() == 1 {
        names[0]
    } else {
        joined(names.drop_last()) + ", "@ + names.last()
    }
}

/// The author line of a track: `Unknown` without artists; otherwise every name bounded and the
/// joined names within the limit.
pub open spec fn spec_artists(names: Seq<Seq<char>>, max: int) -> Option<Seq<char>> {
    if names.len() == 0 {
        Some("Unknown"@)
    } else if exists|i: int| 0 <= i < names.len() && !bounded_nonempty(#[trigger] names[i], max) {
        None
    } else if utf8_len(joined(names)) > max {
        None
    } else {
        Some(joined(names))
    }
}

pub open spec fn names_view(v: Seq<String>) -> Seq<Seq<char>> {
    v.map_values(|s: String| s@)
}

pub fn parse_artists(artists: &Vec<String>, max: usize) -> (result: Result<String, YandexMusicError>)
    ensures
        match spec_artists(names_view(artists@), max as int) {
            Some(a) => result matches Ok(r) && r@ == a,
            None => result matches Err(e) && e.spec_kind() == YandexMusicErrorKind::InvalidResponse,
        },
{
    let ghost names = names_view(artists@);
    if artists.len() == 0 {
        return Ok(copy_text("Unknown"));
    }
    let mut i: usize = 0;
    while i < artists.len()
        invariant
            i <= artists@.len(),
            names == names_view(artists@),
            forall|j: int| 0 <= j < i ==> bounded_nonempty(#[trigger] names[j], max as int),
        decreases artists@.len() - i,
    {
        if !is_bounded_nonempty(artists[i].as_str(), max) {
            proof {
                assert(!bounded_nonempty(names[i as int], max as int));
            }
            return Err(invalid_response());
        }
        i = i + 1;
    }
    let mut out = chars_of(artists[0].as_str());
    let mut k: usize = 1;
    proof {
        assert(names.take(1).drop_last() =~= Seq::<Seq<char>>::empty());
        assert(joined(names.take(1)) == names[0]);
    }
    while k < artists.len()
        invariant
            1 <= k <= artists@.len(),
            names == names_view(artists@),
            out@ == joined(names.take(k as int)),
        decreases artists@.len() - k,
    {
        out = concat_chars(out.as_slice(), chars_of(", ").as_slice());
        out = concat_chars(out.as_slice(), chars_of(artists[k].as_str()).as_slice());
        proof {
            assert(names.take(k + 1).drop_last() =~= names.take(k as int));
            assert(names.take(k + 1).last() == names[k as int]);
        }
        k = k + 1;
    }
    proof {
        assert(names.take(artists@.len() as int) =~= names);
    }
    if utf8_length(out.as_slice()) > max {
        return Err(invalid_response());
    }
    Ok(string_from_chars(out.as_slice()))
}

/// A track object of the API.
#[derive(Clone, Debug, PartialEq, Eq)]
pub struct YandexTrackItem {
    pub available: bool,
    pub id: String,
    pub title: String,
    pub duration_ms: u64,
    pub artists: Vec<String>,
    pub cover_uri: Option<String>,
    pub og_image: Option<String>,
}

/// A Yandex Music track.
#[derive(Debug, PartialEq, Eq)]
pub struct YandexMusicSourceTrack {
    pub info: crate::track::TrackInfo,
}

/// A track object read for a domain: unavailable tracks are skipped (`Ok(None)`); otherwise it
/// needs the requested identifier (when one was requested), a valid numeric identifier, a
/// bounded title, at most the artist limit, a known domain, a valid author line and cover.
pub open spec fn spec_track_item(
    item: YandexTrackItem,
    requested: Option<Seq<char>>,
    domain: Seq<char>,
    options: YandexMusicSourceOptions,
) -> Option<Option<crate::track::TrackInfoView>> {
    let max = options.max_metadata_string_bytes as int;
    if !item.available {
        Some(None)
    } else if (requested matches Some(r) && item.id@ != r) || !spec_valid_numeric(item.id@)
        || !bounded_nonempty(item.title@, max) || item.artists@.len() > options.max_artists
        || !spec_valid_domain(domain) {
        None
    } else {
        match (
            spec_artists(names_view(item.artists@), max),
            spec_optional_cover(preferred_cover(item.og_image, item.cover_uri), max),
        ) {
            (Some(author), Some(artwork_url)) => Some(
                Some(
                    crate::track::TrackInfoView {
                        title: item.title@,
                        author,
                        duration: item.duration_ms * 1_000_000,
                        identifier: item.id@,
                        is_stream: false,
                        uri: Some("https://music.yandex."@ + domain + "/track/"@ + item.id@),
                        artwork_url,
                        isrc: None,
                    },
                ),
            ),
            _ => None,
        }
    }
}

pub open spec fn opt_track(t: Option<YandexMusicSourceTrack>) -> Option<crate::track::TrackInfoView> {
    match t {
        Some(x) => Some(x.info@),
        None => None,
    }
}

pub fn parse_track_item(
    item: &YandexTrackItem,
    requested: Option<&str>,
    domain: &str,
    options: &YandexMusicSourceOptions,
) -> (result: Result<Option<YandexMusicSourceTrack>, YandexMusicError>)
    ensures
        match spec_track_item(
            *item,
            match requested {
                Some(r) => Some(r@),
                None => None,
            },
            domain@,
            *options,
        ) {
            Some(t) => result matches Ok(r) && opt_track(r) == t,
            None => result matches Err(e) && e.spec_kind() == YandexMusicErrorKind::InvalidResponse,
        },
{
    if !item.available {
        return Ok(None);
    }
    let id = chars_of(item.id.as_str());
    let mismatch = match requested {
        Some(r) => !seq_equal(id.as_slice(), chars_of(r).as_slice()),
        None => false,
    };
    let max = options.max_metadata_string_bytes;
    if mismatch || !valid_numeric_identifier(id.as_slice()) || !is_bounded_nonempty(
        item.title.as_str(),
        max,
    ) || item.artists.len() > options.max_artists || !valid_domain(chars_of(domain).as_slice()) {
        return Err(invalid_response());
    }
    let author = parse_artists(&item.artists, max)?;
    let cover = choose_cover(&item.og_image, &item.cover_uri);
    let artwork_url = parse_optional_cover(&cover, max)?;
    let mut uri = concat_chars(chars_of("https://music.yandex.").as_slice(), chars_of(domain).as_slice());
    uri = concat_chars(uri.as_slice(), chars_of("/track/").as_slice());
    uri = concat_chars(uri.as_slice(), id.as_slice());
    Ok(
        Some(
            YandexMusicSourceTrack {
                info: crate::track::TrackInfo {
                    title: copy_text(item.title.as_str()),
                    author,
                    duration: crate::duration::Duration::from_millis(item.duration_ms),
                    identifier: copy_text(item.id.as_str()),
                    is_stream: false,
                    uri: Some(string_from_chars(uri.as_slice())),
                    artwork_url,
                    isrc: None,
                },
            },
        ),
    )
}

/// The tracks of collection entries in order, unavailable ones skipped; `None` when any entry
/// is invalid.
pub open spec fn entries_fold(
    acc: Seq<crate::track::TrackInfoView>,
    items: Seq<YandexTrackItem>,
    domain: Seq<char>,
    options: YandexMusicSourceOptions,
) -> Option<Seq<crate::track::TrackInfoView>>
    decreases items.len(),
{
    if items.len() == 0 {
        Some(acc)
    } else {
        match spec_track_item(items[0], None, domain, options) {
            None => None,
            Some(None) => entries_fold(acc, items.drop_first(), domain, options),
            Some(Some(t)) => entries_fold(acc.push(t), items.drop_first(), domain, options),
        }
    }
}

pub open spec fn tracks_view(v: Seq<YandexMusicSourceTrack>) -> Seq<crate::track::TrackInfoView> {
    v.map_values(|t: YandexMusicSourceTrack| t.info@)
}

/// The tracks of a bounded list of collection entries: `None` above the collection limit or
/// when an entry is invalid.
pub open spec fn spec_collection(
    entries: Seq<YandexTrackItem>,
    domain: Seq<char>,
    options: YandexMusicSourceOptions,
) -> Option<Seq<crate::track::TrackInfoView>> {
    if entries.len() > options.max_collection_tracks {
        None
    } else {
        entries_fold(Seq::empty(), entries, domain, options)
    }
}

/// Appends the tracks of collection entries, in order, skipping unavailable ones.
fn append_entries(
    tracks: &mut Vec<YandexMusicSourceTrack>,
    entries: &Vec<YandexTrackItem>,
    domain: &str,
    options: &YandexMusicSourceOptions,
) -> (result: Result<(), YandexMusicError>)
    ensures
        match entries_fold(tracks_view(old(tracks)@), entries@, domain@, *options) {
            Some(ts) => result is Ok && tracks_view(final(tracks)@) == ts,
            None => result matches Err(e) && e.spec_kind() == YandexMusicErrorKind::InvalidResponse,
        },
{
    let mut i: usize = 0;
    proof {
        assert(entries@.skip(0) =~= entries@);
    }
    while i < entries.len()
        invariant
            i <= entries@.len(),
            entries_fold(tracks_view(old(tracks)@), entries@, domain@, *options) == entries_fold(
                tracks_view(tracks@),
                entries@.skip(i as int),
                domain@,
                *options,
            ),
        decreases entries@.len() - i,
    {
        proof {
            assert(entries@.skip(i as int)[0] == entries@[i as int]);
            assert(entries@.skip(i as int).drop_first() =~= entries@.skip(i + 1));
        }
        match parse_track_item(&entries[i], None, domain, options)? {
            Some(t) => {
                let ghost before = tracks_view(tracks@);
                let ghost added = t.info@;
                tracks.push(t);
                proof {
                    assert(tracks_view(tracks@) =~= before.push(added));
                }
            },
            None => {},
        }
        i = i + 1;
    }
    proof {
        assert(entries@.skip(i as int) =~= Seq::<YandexTrackItem>::empty());
    }
    Ok(())
}

/// The tracks of a bounded list of collection entries.
pub fn parse_collection_entries(
    entries: &Vec<YandexTrackItem>,
    domain: &str,
    options: &YandexMusicSourceOptions,
) -> (result: Result<Vec<YandexMusicSourceTrack>, YandexMusicError>)
    ensures
        match spec_collection(entries@, domain@, *options) {
            Some(ts) => result matches Ok(v) && tracks_view(v@) == ts,
            None => result matches Err(e) && e.spec_kind() == YandexMusicErrorKind::InvalidResponse,
        },
{
    if entries.len() > options.max_collection_tracks {
        return Err(invalid_response());
    }
    let mut tracks: Vec<YandexMusicSourceTrack> = Vec::new();
    proof {
        assert(tracks_view(tracks@) =~= Seq::<crate::track::TrackInfoView>::empty());
    }
    append_entries(&mut tracks, entries, domain, options)?;
    Ok(tracks)
}

// ---------------------------------------------------------------------------------------------
// Collections
// ---------------------------------------------------------------------------------------------

/// What a collection result stands for.
#[derive(Clone, Copy, Debug, PartialEq, Eq, Structural)]
pub enum YandexMusicPlaylistKind {
    Album,
    Artist,
    Playlist,
    Search,
    Recommendations,
}

/// A bounded collection of Yandex Music tracks.
#[derive(Debug, PartialEq, Eq)]
pub struct YandexMusicSourcePlaylist {
    pub name: String,
    pub tracks: Vec<YandexMusicSourceTrack>,
    pub selected_track: Option<usize>,
    pub is_search_result: bool,
    pub kind: YandexMusicPlaylistKind,
    pub uri: Option<String>,
    pub artwork_url: Option<String>,
    pub author: Option<String>,
}

pub struct PlaylistView {
    pub name: Seq<char>,
    pub tracks: Seq<crate::track::TrackInfoView>,
    pub selected_track: Option<usize>,
    pub is_search_result: bool,
    pub kind: YandexMusicPlaylistKind,
    pub uri: Option<Seq<char>>,
    pub artwork_url: Option<Seq<char>>,
    pub author: Option<Seq<char>>,
}

impl View for YandexMusicSourcePlaylist {
    type V = PlaylistView;

    open spec fn view(&self) -> PlaylistView {
        PlaylistView {
            name: self.name@,
            tracks: tracks_view(self.tracks@),
            selected_track: self.selected_track,
            is_search_result: self.is_search_result,
            kind: self.kind,
            uri: opt_text(self.uri),
            artwork_url: opt_text(self.artwork_url),
            author: opt_text(self.author),
        }
    }
}

/// A track or a collection.
#[derive(Debug, PartialEq, Eq)]
pub enum YandexMusicSourceItem {
    Track(YandexMusicSourceTrack),
    Playlist(YandexMusicSourcePlaylist),
}

pub open spec fn opt_playlist(p: Option<YandexMusicSourcePlaylist>) -> Option<PlaylistView> {
    match p {
        Some(x) => Some(x@),
        None => None,
    }
}

/// The author line of a collection: none without artists, else the joined artist names.
pub open spec fn spec_optional_artists(names: Seq<Seq<char>>, max: int) -> Option<Option<Seq<char>>> {
    if names.len() == 0 {
        Some(None)
    } else {
        match spec_artists(names, max) {
            Some(a) => Some(Some(a)),
            None => None,
        }
    }
}

pub fn parse_optional_artists(artists: &Vec<String>, max: usize) -> (result: Result<
    Option<String>,
    YandexMusicError,
>)
    ensures
        match spec_optional_artists(names_view(artists@), max as int) {
            Some(a) => result matches Ok(r) && opt_text(r) == a,
            None => result matches Err(e) && e.spec_kind() == YandexMusicErrorKind::InvalidResponse,
        },
{
    if artists.len() == 0 {
        return Ok(None);
    }
    Ok(Some(parse_artists(artists, max)?))
}

/// An album object of the API: title, artist names, track volumes and covers.
#[derive(Clone, Debug, PartialEq, Eq)]
pub struct YandexAlbum {
    pub title: String,
    pub artists: Vec<String>,
    pub volumes: Vec<Vec<YandexTrackItem>>,
    pub cover_uri: Option<String>,
    pub og_image: Option<String>,
}

/// How many entries the volumes hold together.
pub open spec fn volume_entries(volumes: Seq<Vec<YandexTrackItem>>) -> int
    decreases volumes.len(),
{
    if volumes.len() == 0 {
        0
    } else {
        volume_entries(volumes.drop_last()) + volumes.last()@.len()
    }
}

proof fn lemma_volume_entries_prefix(volumes: Seq<Vec<YandexTrackItem>>, i: int)
    requires
        0 <= i <= volumes.len(),
    ensures
        volume_entries(volumes.take(i)) <= volume_entries(volumes),
    decreases volumes.len(),
{
    if i < volumes.len() {
        assert(volumes.take(i) =~= volumes.drop_last().take(i));
        lemma_volume_entries_prefix(volumes.drop_last(), i);
    } else {
        assert(volumes.take(i) =~= volumes);
    }
}

/// The tracks of the volumes, volume after volume.
pub open spec fn volumes_fold(
    acc: Seq<crate::track::TrackInfoView>,
    volumes: Seq<Vec<YandexTrackItem>>,
    domain: Seq<char>,
    options: YandexMusicSourceOptions,
) -> Option<Seq<crate::track::TrackInfoView>>
    decreases volumes.len(),
{
    if volumes.len() == 0 {
        Some(acc)
    } else {
        match entries_fold(acc, volumes[0]@, domain, options) {
            None => None,
            Some(next) => volumes_fold(next, volumes.drop_first(), domain, options),
        }
    }
}

pub open spec fn yandex_page(domain: Seq<char>, path: Seq<char>, id: Seq<char>) -> Seq<char> {
    "https://music.yandex."@ + domain + path + id
}

/// An album answer: a bounded title, at most the artist limit, at most the collection limit of
/// entries over all volumes, and valid entries; no playlist when no track is left; then valid
/// artists and cover.
pub open spec fn spec_album(
    album: YandexAlbum,
    album_id: Seq<char>,
    domain: Seq<char>,
    options: YandexMusicSourceOptions,
) -> Option<Option<PlaylistView>> {
    let max = options.max_metadata_string_bytes as int;
    if !bounded_nonempty(album.title@, max) || album.artists@.len() > options.max_artists
        || volume_entries(album.volumes@) > options.max_collection_tracks {
        None
    } else {
        match volumes_fold(Seq::empty(), album.volumes@, domain, options) {
            None => None,
            Some(tracks) => if tracks.len() == 0 {
                Some(None)
            } else {
                match (
                    spec_optional_artists(names_view(album.artists@), max),
                    spec_optional_cover(preferred_cover(album.og_image, album.cover_uri), max),
                ) {
                    (Some(author), Some(artwork_url)) => Some(
                        Some(
                            PlaylistView {
                                name: album.title@,
                                tracks,
                                selected_track: None,
                                is_search_result: false,
                                kind: YandexMusicPlaylistKind::Album,
                                uri: Some(yandex_page(domain, "/album/"@, album_id)),
                                artwork_url,
                                author,
                            },
                        ),
                    ),
                    _ => None,
                }
            },
        }
    }
}

fn page_url(domain: &str, path: &str, id: &str) -> (url: String)
    ensures
        url@ == yandex_page(domain@, path@, id@),
{
    let mut v = concat_chars(chars_of("https://music.yandex.").as_slice(), chars_of(domain).as_slice());
    v = concat_chars(v.as_slice(), chars_of(path).as_slice());
    v = concat_chars(v.as_slice(), chars_of(id).as_slice());
    string_from_chars(v.as_slice())
}

/// Reads an album answer; an absent album is no result.
pub fn parse_album_response(
    album: &Option<YandexAlbum>,
    album_id: &str,
    domain: &str,
    options: &YandexMusicSourceOptions,
) -> (result: Result<Option<YandexMusicSourcePlaylist>, YandexMusicError>)
    ensures
        match *album {
            None => result matches Ok(None),
            Some(a) => match spec_album(a, album_id@, domain@, *options) {
                Some(p) => result matches Ok(r) && opt_playlist(r) == p,
                None => result matches Err(e) && e.spec_kind()
                    == YandexMusicErrorKind::InvalidResponse,
            },
        },
{
    let a = match album {
        None => {
            return Ok(None);
        },
        Some(a) => a,
    };
    let max = options.max_metadata_string_bytes;
    if !is_bounded_nonempty(a.title.as_str(), max) || a.artists.len() > options.max_artists {
        return Err(invalid_response());
    }
    let mut count: usize = 0;
    let mut i: usize = 0;
    while i < a.volumes.len()
        invariant
            i <= a.volumes@.len(),
            *album == Some(*a),
            bounded_nonempty(a.title@, max as int),
            a.artists@.len() <= options.max_artists,
            count == volume_entries(a.volumes@.take(i as int)),
            count <= options.max_collection_tracks,
        decreases a.volumes@.len() - i,
    {
        proof {
            assert(a.volumes@.take(i + 1).drop_last() =~= a.volumes@.take(i as int));
        }
        let n = a.volumes[i].len();
        if n > options.max_collection_tracks - count {
            proof {
                lemma_volume_entries_prefix(a.volumes@, i + 1);
            }
            return Err(invalid_response());
        }
        count = count + n;
        i = i + 1;
    }
    proof {
        assert(a.volumes@.take(i as int) =~= a.volumes@);
    }
    let mut tracks: Vec<YandexMusicSourceTrack> = Vec::new();
    let mut j: usize = 0;
    proof {
        assert(tracks_view(tracks@) =~= Seq::<crate::track::TrackInfoView>::empty());
        assert(a.volumes@.skip(0) =~= a.volumes@);
    }
    while j < a.volumes.len()
        invariant
            j <= a.volumes@.len(),
            *album == Some(*a),
            max == options.max_metadata_string_bytes,
            bounded_nonempty(a.title@, max as int),
            a.artists@.len() <= options.max_artists,
            volume_entries(a.volumes@) <= options.max_collection_tracks,
            volumes_fold(Seq::empty(), a.volumes@, domain@, *options) == volumes_fold(
                tracks_view(tracks@),
                a.volumes@.skip(j as int),
                domain@,
                *options,
            ),
        decreases a.volumes@.len() - j,
    {
        proof {
            assert(a.volumes@.skip(j as int)[0] == a.volumes@[j as int]);
            assert(a.volumes@.skip(j as int).drop_first() =~= a.volumes@.skip(j + 1));
        }
        append_entries(&mut tracks, &a.volumes[j], domain, options)?;
        j = j + 1;
    }
    proof {
        assert(a.volumes@.skip(j as int) =~= Seq::<Vec<YandexTrackItem>>::empty());
    }
    if tracks.len() == 0 {
        return Ok(None);
    }
    let author = parse_optional_artists(&a.artists, max)?;
    let cover = choose_cover(&a.og_image, &a.cover_uri);
    let artwork_url = parse_optional_cover(&cover, max)?;
    Ok(
        Some(
            YandexMusicSourcePlaylist {
                name: copy_text(a.title.as_str()),
                tracks,
                selected_track: None,
                is_search_result: false,
                kind: YandexMusicPlaylistKind::Album,
                uri: Some(page_url(domain, "/album/", album_id)),
                artwork_url,
                author,
            },
        ),
    )
}

/// Reads an artist's track answer; an absent result is an empty list.
pub fn parse_artist_tracks_response(
    entries: &Option<Vec<YandexTrackItem>>,
    domain: &str,
    options: &YandexMusicSourceOptions,
) -> (result: Result<Vec<YandexMusicSourceTrack>, YandexMusicError>)
    ensures
        match *entries {
            None => result matches Ok(v) && v@.len() == 0,
            Some(list) => match spec_collection(list@, domain@, *options) {
                Some(ts) => result matches Ok(v) && tracks_view(v@) == ts,
                None => result matches Err(e) && e.spec_kind()
                    == YandexMusicErrorKind::InvalidResponse,
            },
        },
{
    match entries {
        None => Ok(Vec::new()),
        Some(list) => parse_collection_entries(list, domain, options),
    }
}

/// The artist object of an artist answer.
#[derive(Clone, Debug, PartialEq, Eq)]
pub struct YandexArtistDetails {
    pub name: String,
    pub cover_uri: Option<String>,
    pub og_image: Option<String>,
}

/// An artist collection: a bounded name, named `<name>'s Top Tracks` within the limit, with a
/// valid cover, authored by the artist.
pub open spec fn spec_artist(
    details: YandexArtistDetails,
    artist_id: Seq<char>,
    domain: Seq<char>,
    tracks: Seq<crate::track::TrackInfoView>,
    options: YandexMusicSourceOptions,
) -> Option<PlaylistView> {
    let max = options.max_metadata_string_bytes as int;
    let name = details.name@ + "'s Top Tracks"@;
    if !bounded_nonempty(details.name@, max) || utf8_len(name) > max {
        None
    } else {
        match spec_optional_cover(preferred_cover(details.og_image, details.cover_uri), max) {
            None => None,
            Some(artwork_url) => Some(
                PlaylistView {
                    name,
                    tracks,
                    selected_track: None,
                    is_search_result: false,
                    kind: YandexMusicPlaylistKind::Artist,
                    uri: Some(yandex_page(domain, "/artist/"@, artist_id)),
                    artwork_url,
                    author: Some(details.name@),
                },
            ),
        }
    }
}

/// Builds an artist collection from the artist answer and the artist's tracks.
pub fn parse_artist_response(
    details: &Option<YandexArtistDetails>,
    artist_id: &str,
    domain: &str,
    tracks: Vec<YandexMusicSourceTrack>,
    options: &YandexMusicSourceOptions,
) -> (result: Result<YandexMusicSourcePlaylist, YandexMusicError>)
    ensures
        match *details {
            None => result matches Err(e) && e.spec_kind() == YandexMusicErrorKind::InvalidResponse,
            Some(d) => match spec_artist(d, artist_id@, domain@, tracks_view(tracks@), *options) {
                Some(p) => result matches Ok(r) && r@ == p,
                None => result matches Err(e) && e.spec_kind()
                    == YandexMusicErrorKind::InvalidResponse,
            },
        },
{
    let d = match details {
        None => {
            return Err(invalid_response());
        },
        Some(d) => d,
    };
    let max = options.max_metadata_string_bytes;
    if !is_bounded_nonempty(d.name.as_str(), max) {
        return Err(invalid_response());
    }
    let name = concat_chars(chars_of(d.name.as_str()).as_slice(), chars_of("'s Top Tracks").as_slice());
    if utf8_length(name.as_slice()) > max {
        return Err(invalid_response());
    }
    let cover = choose_cover(&d.og_image, &d.cover_uri);
    let artwork_url = parse_optional_cover(&cover, max)?;
    Ok(
        YandexMusicSourcePlaylist {
            name: string_from_chars(name.as_slice()),
            tracks,
            selected_track: None,
            is_search_result: false,
            kind: YandexMusicPlaylistKind::Artist,
            uri: Some(page_url(domain, "/artist/", artist_id)),
            artwork_url,
            author: Some(copy_text(d.name.as_str())),
        },
    )
}

/// The `kind` of a playlist answer: an unsigned number, a text, or anything else.
#[derive(Clone, Debug, PartialEq, Eq)]
pub enum YandexPlaylistKindValue {
    Unsigned(u64),
    Text(String),
    Other,
}

/// The liked-songs playlist has kind `3`, as a number or as a text.
pub open spec fn spec_kind_is_liked(kind: YandexPlaylistKindValue) -> bool {
    match kind {
        YandexPlaylistKindValue::Unsigned(n) => n == 3,
        YandexPlaylistKindValue::Text(t) => t@ == "3"@,
        YandexPlaylistKindValue::Other => false,
    }
}

pub fn playlist_kind_is_liked(kind: &YandexPlaylistKindValue) -> (liked: bool)
    ensures
        liked == spec_kind_is_liked(*kind),
{
    match kind {
        YandexPlaylistKindValue::Unsigned(n) => *n == 3,
        YandexPlaylistKindValue::Text(t) => seq_equal(
            chars_of(t.as_str()).as_slice(),
            chars_of("3").as_slice(),
        ),
        YandexPlaylistKindValue::Other => false,
    }
}

/// The owner object of a playlist answer.
#[derive(Clone, Debug, PartialEq, Eq)]
pub struct YandexPlaylistOwner {
    pub name: Option<String>,
    pub login: Option<String>,
}

/// The owner's display name, else login, which must be bounded when present.
pub open spec fn spec_owner_name(owner: Option<YandexPlaylistOwner>, max: int) -> Option<
    Option<Seq<char>>,
> {
    match owner {
        None => Some(None),
        Some(o) => {
            let value = match o.name {
                Some(n) => Some(n@),
                None => opt_text(o.login),
            };
            match value {
                None => Some(None),
                Some(v) => if bounded_nonempty(v, max) {
                    Some(Some(v))
                } else {
                    None
                },
            }
        },
    }
}

pub fn parse_playlist_owner(owner: &Option<YandexPlaylistOwner>, max: usize) -> (result: Result<
    Option<String>,
    YandexMusicError,
>)
    ensures
        match spec_owner_name(*owner, max as int) {
            Some(a) => result matches Ok(r) && opt_text(r) == a,
            None => result matches Err(e) && e.spec_kind() == YandexMusicErrorKind::InvalidResponse,
        },
{
    let o = match owner {
        None => {
            return Ok(None);
        },
        Some(o) => o,
    };
    let value = match &o.name {
        Some(n) => Some(copy_text(n.as_str())),
        None => crate::track::copy_opt_text(&o.login),
    };
    match value {
        None => Ok(None),
        Some(v) => if is_bounded_nonempty(v.as_str(), max) {
            Ok(Some(v))
        } else {
            Err(invalid_response())
        },
    }
}

/// A playlist object of the API.
#[derive(Clone, Debug, PartialEq, Eq)]
pub struct YandexPlaylist {
    pub kind: YandexPlaylistKindValue,
    pub title: Option<String>,
    pub owner: Option<YandexPlaylistOwner>,
    pub tracks: Vec<YandexTrackItem>,
    pub cover_uri: Option<String>,
    pub og_image: Option<String>,
}

/// The liked-songs playlist is named after its owner; any other after its title.
pub open spec fn spec_playlist_name(playlist: YandexPlaylist, author: Option<Seq<char>>) -> Option<
    Seq<char>,
> {
    if spec_kind_is_liked(playlist.kind) {
        match author {
            Some(a) => Some(a + "'s liked songs"@),
            None => None,
        }
    } else {
        opt_text(playlist.title)
    }
}

/// The page of a playlist: under its owner when the route named one.
pub open spec fn playlist_page(
    requested_owner: Option<Seq<char>>,
    playlist_id: Seq<char>,
    domain: Seq<char>,
) -> Seq<char> {
    match requested_owner {
        None => yandex_page(domain, "/playlists/"@, playlist_id),
        Some(o) => yandex_page(domain, "/users/"@, o + "/playlists/"@ + playlist_id),
    }
}

/// A playlist answer: valid entries; no playlist when no track is left; then a valid owner, a
/// bounded name and a valid cover.
pub open spec fn spec_playlist(
    playlist: YandexPlaylist,
    requested_owner: Option<Seq<char>>,
    playlist_id: Seq<char>,
    domain: Seq<char>,
    options: YandexMusicSourceOptions,
) -> Option<Option<PlaylistView>> {
    let max = options.max_metadata_string_bytes as int;
    match spec_collection(playlist.tracks@, domain, options) {
        None => None,
        Some(tracks) => if tracks.len() == 0 {
            Some(None)
        } else {
            match spec_owner_name(playlist.owner, max) {
                None => None,
                Some(author) => match spec_playlist_name(playlist, author) {
                    None => None,
                    Some(name) => if !bounded_nonempty(name, max) {
                        None
                    } else {
                        match spec_optional_cover(
                            preferred_cover(playlist.og_image, playlist.cover_uri),
                            max,
                        ) {
                            None => None,
                            Some(artwork_url) => Some(
                                Some(
                                    PlaylistView {
                                        name,
                                        tracks,
                                        selected_track: None,
                                        is_search_result: false,
                                        kind: YandexMusicPlaylistKind::Playlist,
                                        uri: Some(
                                            playlist_page(requested_owner, playlist_id, domain),
                                        ),
                                        artwork_url,
                                        author,
                                    },
                                ),
                            ),
                        }
                    },
                },
            }
        },
    }
}

/// Reads a playlist answer; an absent playlist is no result.
pub fn parse_playlist_response(
    playlist: &Option<YandexPlaylist>,
    requested_owner: Option<&str>,
    playlist_id: &str,
    domain: &str,
    options: &YandexMusicSourceOptions,
) -> (result: Result<Option<YandexMusicSourcePlaylist>, YandexMusicError>)
    ensures
        match *playlist {
            None => result matches Ok(None),
            Some(p) => match spec_playlist(
                p,
                match requested_owner {
                    Some(o) => Some(o@),
                    None => None,
                },
                playlist_id@,
                domain@,
                *options,
            ) {
                Some(v) => result matches Ok(r) && opt_playlist(r) == v,
                None => result matches Err(e) && e.spec_kind()
                    == YandexMusicErrorKind::InvalidResponse,
            },
        },
{
    let p = match playlist {
        None => {
            return Ok(None);
        },
        Some(p) => p,
    };
    let max = options.max_metadata_string_bytes;
    let tracks = parse_collection_entries(&p.tracks, domain, options)?;
    if tracks.len() == 0 {
        return Ok(None);
    }
    let author = parse_playlist_owner(&p.owner, max)?;
    let name = if playlist_kind_is_liked(&p.kind) {
        match &author {
            Some(a) => string_from_chars(
                concat_chars(
                    chars_of(a.as_str()).as_slice(),
                    chars_of("'s liked songs").as_slice(),
                ).as_slice(),
            ),
            None => {
                return Err(invalid_response());
            },
        }
    } else {
        match &p.title {
            Some(t) => copy_text(t.as_str()),
            None => {
                return Err(invalid_response());
            },
        }
    };
    if !is_bounded_nonempty(name.as_str(), max) {
        return Err(invalid_response());
    }
    let cover = choose_cover(&p.og_image, &p.cover_uri);
    let artwork_url = parse_optional_cover(&cover, max)?;
    let uri = match requested_owner {
        None => page_url(domain, "/playlists/", playlist_id),
        Some(o) => {
            let tail = string_from_chars(
                concat_chars(
                    concat_chars(chars_of(o).as_slice(), chars_of("/playlists/").as_slice()).as_slice(),
                    chars_of(playlist_id).as_slice(),
                ).as_slice(),
            );
            page_url(domain, "/users/", tail.as_str())
        },
    };
    Ok(
        Some(
            YandexMusicSourcePlaylist {
                name,
                tracks,
                selected_track: None,
                is_search_result: false,
                kind: YandexMusicPlaylistKind::Playlist,
                uri: Some(uri),
                artwork_url,
                author,
            },
        ),
    )
}

/// A search or recommendation answer: valid entries (read for the `ru` domain); no playlist
/// when no track is left; then a name within the limit, with no URI, cover or author.
pub open spec fn spec_listing(
    entries: Seq<YandexTrackItem>,
    name: Seq<char>,
    is_search_result: bool,
    kind: YandexMusicPlaylistKind,
    options: YandexMusicSourceOptions,
) -> Option<Option<PlaylistView>> {
    match spec_collection(entries, "ru"@, options) {
        None => None,
        Some(tracks) => if tracks.len() == 0 {
            Some(None)
        } else if utf8_len(name) > options.max_metadata_string_bytes {
            None
        } else {
            Some(
                Some(
                    PlaylistView {
                        name,
                        tracks,
                        selected_track: None,
                        is_search_result,
                        kind,
                        uri: None,
                        artwork_url: None,
                        author: None,
                    },
                ),
            )
        },
    }
}

fn parse_listing(
    entries: &Vec<YandexTrackItem>,
    name: Vec<char>,
    is_search_result: bool,
    kind: YandexMusicPlaylistKind,
    options: &YandexMusicSourceOptions,
) -> (result: Result<Option<YandexMusicSourcePlaylist>, YandexMusicError>)
    ensures
        match spec_listing(entries@, name@, is_search_result, kind, *options) {
            Some(v) => result matches Ok(r) && opt_playlist(r) == v,
            None => result matches Err(e) && e.spec_kind() == YandexMusicErrorKind::InvalidResponse,
        },
{
    let tracks = parse_collection_entries(entries, "ru", options)?;
    if tracks.len() == 0 {
        return Ok(None);
    }
    if utf8_length(name.as_slice()) > options.max_metadata_string_bytes {
        return Err(invalid_response());
    }
    Ok(
        Some(
            YandexMusicSourcePlaylist {
                name: string_from_chars(name.as_slice()),
                tracks,
                selected_track: None,
                is_search_result,
                kind,
                uri: None,
                artwork_url: None,
                author: None,
            },
        ),
    )
}

/// Reads the track results of a search answer (absent results are an empty list) into a
/// search-result playlist named after the query.
pub fn parse_search_response(
    entries: &Vec<YandexTrackItem>,
    query: &str,
    options: &YandexMusicSourceOptions,
) -> (result: Result<Option<YandexMusicSourcePlaylist>, YandexMusicError>)
    ensures
        match spec_listing(
            entries@,
            "Yandex Music Search: "@ + query@,
            true,
            YandexMusicPlaylistKind::Search,
            *options,
        ) {
            Some(v) => result matches Ok(r) && opt_playlist(r) == v,
            None => result matches Err(e) && e.spec_kind() == YandexMusicErrorKind::InvalidResponse,
        },
{
    let name = concat_chars(chars_of("Yandex Music Search: ").as_slice(), chars_of(query).as_slice());
    parse_listing(entries, name, true, YandexMusicPlaylistKind::Search, options)
}

/// Reads the similar tracks of a recommendation answer (absent ones are an empty list).
pub fn parse_recommendations_response(
    entries: &Vec<YandexTrackItem>,
    options: &YandexMusicSourceOptions,
) -> (result: Result<Option<YandexMusicSourcePlaylist>, YandexMusicError>)
    ensures
        match spec_listing(
            entries@,
            "Yandex Music Recommendations"@,
            false,
            YandexMusicPlaylistKind::Recommendations,
            *options,
        ) {
            Some(v) => result matches Ok(r) && opt_playlist(r) == v,
            None => result matches Err(e) && e.spec_kind() == YandexMusicErrorKind::InvalidResponse,
        },
{
    parse_listing(
        entries,
        chars_of("Yandex Music Recommendations"),
        false,
        YandexMusicPlaylistKind::Recommendations,
        options,
    )
}

/// Reads a track answer: no result for an empty list, exactly one track object otherwise,
/// which must carry the requested identifier.
pub fn parse_track_response(
    items: &Vec<YandexTrackItem>,
    requested_id: &str,
    domain: &str,
    options: &YandexMusicSourceOptions,
) -> (result: Result<Option<YandexMusicSourceTrack>, YandexMusicError>)
    ensures
        items@.len() == 0 ==> result matches Ok(None),
        items@.len() > 1 ==> (result matches Err(e) && e.spec_kind()
            == YandexMusicErrorKind::InvalidResponse),
        items@.len() == 1 ==> match spec_track_item(
            items@[0],
            Some(requested_id@),
            domain@,
            *options,
        ) {
            Some(t) => result matches Ok(r) && opt_track(r) == t,
            None => result matches Err(e) && e.spec_kind() == YandexMusicErrorKind::InvalidResponse,
        },
{
    if items.len() == 0 {
        return Ok(None);
    }
    if items.len() != 1 {
        return Err(invalid_response());
    }
    parse_track_item(&items[0], Some(requested_id), domain, options)
}

// ---------------------------------------------------------------------------------------------
// Manager
// ---------------------------------------------------------------------------------------------

/// Only MP3 in an MP3 container is playable.
pub fn check_playback_format(container: crate::media::Container, codec: crate::media::Codec) -> (result:
    Result<(), YandexMusicPlaybackError>)
    ensures
        container == crate::media::Container::Mp3 && codec == crate::media::Codec::Mp3
            ==> result is Ok,
        !(container == crate::media::Container::Mp3 && codec == crate::media::Codec::Mp3) ==> (
        result matches Err(e) && e.spec_kind() == YandexMusicPlaybackErrorKind::IncompatibleFormat),
{
    let mp3_codec = match codec {
        crate::media::Codec::Mp3 => true,
        _ => false,
    };
    let mp3_container = match container {
        crate::media::Container::Mp3 => true,
        _ => false,
    };
    if !mp3_container || !mp3_codec {
        return Err(YandexMusicPlaybackError::new(YandexMusicPlaybackErrorKind::IncompatibleFormat));
    }
    Ok(())
}

/// The API base URL without trailing slashes.
pub open spec fn api_base(options: YandexMusicSourceOptions) -> Seq<char> {
    trim_end_slashes(options.api_base_url@)
}

/// The page size of a collection request, `None` when the product overflows.
pub open spec fn spec_page_size(options: YandexMusicSourceOptions, per_page: int) -> Option<int> {
    let size = per_page * options.max_collection_pages;
    if size > usize::MAX {
        None
    } else if size < options.max_collection_tracks {
        Some(size)
    } else {
        Some(options.max_collection_tracks as int)
    }
}

/// A paged collection endpoint: `<base><path>?page-size=<n><tail>`.
pub open spec fn paged(
    options: YandexMusicSourceOptions,
    path: Seq<char>,
    per_page: int,
    tail: Seq<char>,
) -> Option<Seq<char>> {
    match spec_page_size(options, per_page) {
        None => None,
        Some(n) => Some(
            api_base(options) + path + "?page-size="@ + crate::track::decimal_text(n as nat) + tail,
        ),
    }
}

/// The first API request of a route, `None` when the route is refused by policy.
pub open spec fn spec_route_endpoint(route: RouteView, options: YandexMusicSourceOptions) -> Option<
    Seq<char>,
> {
    match route {
        RouteView::Track { track_id, domain, .. } => if spec_valid_numeric(track_id)
            && spec_valid_domain(domain) {
            Some(api_base(options) + "/tracks/"@ + track_id)
        } else {
            None
        },
        RouteView::Album { album_id, domain } => if spec_valid_numeric(album_id)
            && spec_valid_domain(domain) {
            paged(
                options,
                "/albums/"@ + album_id + "/with-tracks"@,
                ALBUM_TRACKS_PER_PAGE as int,
                Seq::empty(),
            )
        } else {
            None
        },
        RouteView::Artist { artist_id, domain } => if spec_valid_numeric(artist_id)
            && spec_valid_domain(domain) {
            paged(
                options,
                "/artists/"@ + artist_id + "/tracks"@,
                ARTIST_TRACKS_PER_PAGE as int,
                Seq::empty(),
            )
        } else {
            None
        },
        RouteView::Playlist { owner, playlist_id, domain } => if spec_valid_playlist_component(
            playlist_id,
        ) && (owner matches Some(o) ==> spec_valid_playlist_component(o)) && spec_valid_domain(
            domain,
        ) {
            paged(
                options,
                match owner {
                    Some(o) => "/users/"@ + o + "/playlists/"@ + playlist_id,
                    None => "/playlist/"@ + playlist_id,
                },
                PLAYLIST_TRACKS_PER_PAGE as int,
                "&rich-tracks=true"@,
            )
        } else {
            None
        },
        RouteView::Search(query) => if options.allow_search && bounded_nonempty(
            query,
            options.max_metadata_string_bytes as int,
        ) {
            Some(
                api_base(options) + "/search?text="@ + crate::soundcloud::form_encode(
                    vstd::utf8::encode_utf8(query),
                ) + "&type=track&page=0"@,
            )
        } else {
            None
        },
        RouteView::Recommendations(track_id) => if options.allow_recommendations
            && spec_valid_numeric(track_id) {
            Some(api_base(options) + "/tracks/"@ + track_id + "/similar"@)
        } else {
            None
        },
    }
}

/// The policy, credentials and lifecycle state of a Yandex Music source.
pub struct YandexMusicSourceManager {
    options: YandexMusicSourceOptions,
    authentication: YandexMusicAuthentication,
    shutdown: bool,
}

impl YandexMusicSourceManager {
    pub closed spec fn spec_options(&self) -> YandexMusicSourceOptions {
        self.options
    }

    pub closed spec fn spec_authentication(&self) -> YandexMusicAuthentication {
        self.authentication
    }

    pub closed spec fn is_shut_down(&self) -> bool {
        self.shutdown
    }

    /// Creates a manager after validating the HTTP, parsing and playback policy; the HTTP
    /// policy is validated against the transport's redirect and retry ceilings.
    pub fn new(
        options: YandexMusicSourceOptions,
        authentication: YandexMusicAuthentication,
        redirect_ceiling: u32,
        retry_ceiling: u32,
    ) -> (result: Result<Self, YandexMusicError>)
        ensures
            options.is_valid() && options.http.is_valid(redirect_ceiling, retry_ceiling) ==> (
            result matches Ok(m) && m.spec_options() == options && m.spec_authentication()
                == authentication && !m.is_shut_down()),
            !(options.is_valid() && options.http.is_valid(redirect_ceiling, retry_ceiling)) ==> (
            result matches Err(e) && e.spec_kind() == YandexMusicErrorKind::InvalidOptions),
    {
        options.validate()?;
        if options.http.validate(redirect_ceiling, retry_ceiling).is_err() {
            return Err(invalid_options());
        }
        Ok(YandexMusicSourceManager { options, authentication, shutdown: false })
    }

    pub fn authentication(&self) -> (authentication: &YandexMusicAuthentication)
        ensures
            *authentication == self.spec_authentication(),
    {
        &self.authentication
    }

    pub fn source_name(&self) -> (name: &'static str)
        ensures
            name == "yandex-music",
    {
        "yandex-music"
    }

    /// Loads are refused once the manager is shut down, then when they are cancelled.
    pub fn ensure_active(&self, cancelled: bool) -> (result: Result<(), YandexMusicError>)
        ensures
            self.is_shut_down() ==> (result matches Err(e) && e.spec_kind()
                == YandexMusicErrorKind::Shutdown),
            !self.is_shut_down() && cancelled ==> (result matches Err(e) && e.spec_kind()
                == YandexMusicErrorKind::Cancelled),
            !self.is_shut_down() && !cancelled ==> result is Ok,
    {
        if self.shutdown {
            return Err(YandexMusicError::new(YandexMusicErrorKind::Shutdown));
        }
        if cancelled {
            return Err(YandexMusicError::new(YandexMusicErrorKind::Cancelled));
        }
        Ok(())
    }

    fn paged_endpoint(&self, path: Vec<char>, per_page: usize, tail: &str) -> (result: Result<
        String,
        YandexMusicError,
    >)
        ensures
            match paged(self.spec_options(), path@, per_page as int, tail@) {
                Some(e) => result matches Ok(r) && r@ == e,
                None => result matches Err(e) && e.spec_kind()
                    == YandexMusicErrorKind::InvalidOptions,
            },
    {
        let n = self.options.collection_page_size(per_page)?;
        let base = crate::soundcloud::trim_end_slash_chars(chars_of(self.options.api_base_url.as_str()).as_slice());
        let mut v = concat_chars(base.as_slice(), path.as_slice());
        v = concat_chars(v.as_slice(), chars_of("?page-size=").as_slice());
        let digits = crate::track::decimal_string(n as u64);
        v = concat_chars(v.as_slice(), chars_of(digits.as_str()).as_slice());
        v = concat_chars(v.as_slice(), chars_of(tail).as_slice());
        Ok(string_from_chars(v.as_slice()))
    }

    fn base_endpoint(&self, path: Vec<char>) -> (endpoint: String)
        ensures
            endpoint@ == api_base(self.spec_options()) + path@,
    {
        let base = crate::soundcloud::trim_end_slash_chars(chars_of(self.options.api_base_url.as_str()).as_slice());
        string_from_chars(concat_chars(base.as_slice(), path.as_slice()).as_slice())
    }

    /// The API endpoint that loading a route asks first (an artist's tracks for an artist).
    pub fn route_endpoint(&self, route: &YandexMusicRoute) -> (result: Result<String, YandexMusicError>)
        ensures
            match spec_route_endpoint(route@, self.spec_options()) {
                Some(e) => result matches Ok(r) && r@ == e,
                None => result matches Err(e) && e.spec_kind()
                    == YandexMusicErrorKind::InvalidOptions,
            },
    {
        match route {
            YandexMusicRoute::Track { track_id, domain, .. } => {
                if !valid_numeric_identifier(chars_of(track_id.as_str()).as_slice()) || !valid_domain(
                    chars_of(domain.as_str()).as_slice(),
                ) {
                    return Err(invalid_options());
                }
                Ok(
                    self.base_endpoint(
                        concat_chars(
                            chars_of("/tracks/").as_slice(),
                            chars_of(track_id.as_str()).as_slice(),
                        ),
                    ),
                )
            },
            YandexMusicRoute::Album { album_id, domain } => {
                if !valid_numeric_identifier(chars_of(album_id.as_str()).as_slice()) || !valid_domain(
                    chars_of(domain.as_str()).as_slice(),
                ) {
                    return Err(invalid_options());
                }
                let path = concat_chars(
                    concat_chars(
                        chars_of("/albums/").as_slice(),
                        chars_of(album_id.as_str()).as_slice(),
                    ).as_slice(),
                    chars_of("/with-tracks").as_slice(),
                );
                proof {
                    reveal_strlit("");
                    assert(""@ =~= Seq::<char>::empty());
                }
                self.paged_endpoint(path, ALBUM_TRACKS_PER_PAGE, "")
            },
            YandexMusicRoute::Artist { artist_id, domain } => {
                if !valid_numeric_identifier(chars_of(artist_id.as_str()).as_slice())
                    || !valid_domain(chars_of(domain.as_str()).as_slice()) {
                    return Err(invalid_options());
                }
                let path = concat_chars(
                    concat_chars(
                        chars_of("/artists/").as_slice(),
                        chars_of(artist_id.as_str()).as_slice(),
                    ).as_slice(),
                    chars_of("/tracks").as_slice(),
                );
                proof {
                    reveal_strlit("");
                    assert(""@ =~= Seq::<char>::empty());
                }
                self.paged_endpoint(path, ARTIST_TRACKS_PER_PAGE, "")
            },
            YandexMusicRoute::Playlist { owner, playlist_id, domain } => {
                let owner_ok = match owner {
                    Some(o) => valid_playlist_component(chars_of(o.as_str()).as_slice()),
                    None => true,
                };
                if !valid_playlist_component(chars_of(playlist_id.as_str()).as_slice()) || !owner_ok
                    || !valid_domain(chars_of(domain.as_str()).as_slice()) {
                    return Err(invalid_options());
                }
                let path = match owner {
                    Some(o) => concat_chars(
                        concat_chars(
                            concat_chars(
                                chars_of("/users/").as_slice(),
                                chars_of(o.as_str()).as_slice(),
                            ).as_slice(),
                            chars_of("/playlists/").as_slice(),
                        ).as_slice(),
                        chars_of(playlist_id.as_str()).as_slice(),
                    ),
                    None => concat_chars(
                        chars_of("/playlist/").as_slice(),
                        chars_of(playlist_id.as_str()).as_slice(),
                    ),
                };
                self.paged_endpoint(path, PLAYLIST_TRACKS_PER_PAGE, "&rich-tracks=true")
            },
            YandexMusicRoute::Search(query) => {
                if !self.options.allow_search || !is_bounded_nonempty(
                    query.as_str(),
                    self.options.max_metadata_string_bytes,
                ) {
                    return Err(invalid_options());
                }
                let encoded = crate::soundcloud::form_url_encode(query.as_str());
                let path = concat_chars(
                    concat_chars(
                        chars_of("/search?text=").as_slice(),
                        chars_of(encoded.as_str()).as_slice(),
                    ).as_slice(),
                    chars_of("&type=track&page=0").as_slice(),
                );
                Ok(self.base_endpoint(path))
            },
            YandexMusicRoute::Recommendations(track_id) => {
                if !self.options.allow_recommendations || !valid_numeric_identifier(
                    chars_of(track_id.as_str()).as_slice(),
                ) {
                    return Err(invalid_options());
                }
                let path = concat_chars(
                    concat_chars(
                        chars_of("/tracks/").as_slice(),
                        chars_of(track_id.as_str()).as_slice(),
                    ).as_slice(),
                    chars_of("/similar").as_slice(),
                );
                Ok(self.base_endpoint(path))
            },
        }
    }

    /// The second request of an artist route: the artist's details.
    pub fn artist_details_endpoint(&self, artist_id: &str, domain: &str) -> (result: Result<
        String,
        YandexMusicError,
    >)
        ensures
            spec_valid_numeric(artist_id@) && spec_valid_domain(domain@) ==> (result matches Ok(r)
                && r@ == api_base(self.spec_options()) + "/artists/"@ + artist_id@),
            !(spec_valid_numeric(artist_id@) && spec_valid_domain(domain@)) ==> (result matches Err(
                e,
            ) && e.spec_kind() == YandexMusicErrorKind::InvalidOptions),
    {
        if !valid_numeric_identifier(chars_of(artist_id).as_slice()) || !valid_domain(
            chars_of(domain).as_slice(),
        ) {
            return Err(invalid_options());
        }
        Ok(self.base_endpoint(concat_chars(chars_of("/artists/").as_slice(), chars_of(artist_id).as_slice())))
    }

    /// The download-candidate request of a track.
    pub fn download_info_endpoint(&self, track_id: &str) -> (result: Result<String, YandexMusicError>)
        ensures
            spec_valid_numeric(track_id@) ==> (result matches Ok(r) && r@ == api_base(
                self.spec_options(),
            ) + "/tracks/"@ + track_id@ + "/download-info"@),
            !spec_valid_numeric(track_id@) ==> (result matches Err(e) && e.spec_kind()
                == YandexMusicErrorKind::InvalidOptions),
    {
        if !valid_numeric_identifier(chars_of(track_id).as_slice()) {
            return Err(invalid_options());
        }
        let path = concat_chars(
            concat_chars(chars_of("/tracks/").as_slice(), chars_of(track_id).as_slice()).as_slice(),
            chars_of("/download-info").as_slice(),
        );
        Ok(self.base_endpoint(path))
    }

    /// Plain-HTTP playback for private networks needs a range input that may reach them.
    pub fn check_playback_access(&self, network_access: HttpNetworkAccess) -> (result: Result<
        (),
        YandexMusicPlaybackError,
    >)
        ensures
            self.spec_options().playback_scheme == YandexMusicPlaybackScheme::HttpForPrivateNetworks
                && network_access != HttpNetworkAccess::AllowPrivateNetworks ==> (result matches Err(
                e,
            ) && e.spec_kind() == YandexMusicPlaybackErrorKind::InvalidOptions),
            !(self.spec_options().playback_scheme
                == YandexMusicPlaybackScheme::HttpForPrivateNetworks && network_access
                != HttpNetworkAccess::AllowPrivateNetworks) ==> result is Ok,
    {
        if self.options.playback_scheme == YandexMusicPlaybackScheme::HttpForPrivateNetworks
            && network_access != HttpNetworkAccess::AllowPrivateNetworks {
            return Err(YandexMusicPlaybackError::new(YandexMusicPlaybackErrorKind::InvalidOptions));
        }
        Ok(())
    }

    /// Only tracks are stored.
    pub fn is_encodable(&self, item: &YandexMusicSourceItem) -> (encodable: bool)
        ensures
            encodable == item is Track,
    {
        match item {
            YandexMusicSourceItem::Track(_) => true,
            YandexMusicSourceItem::Playlist(_) => false,
        }
    }

    /// A stored track needs no payload; a collection cannot be stored.
    pub fn encode(&self, item: &YandexMusicSourceItem) -> (result: Result<
        Vec<u8>,
        crate::source::SourceRegistryError,
    >)
        ensures
            item is Track ==> (result matches Ok(v) && v@.len() == 0),
            item is Playlist ==> result == Err::<Vec<u8>, crate::source::SourceRegistryError>(
                crate::source::SourceRegistryError::NotEncodable,
            ),
    {
        match item {
            YandexMusicSourceItem::Track(_) => Ok(Vec::new()),
            YandexMusicSourceItem::Playlist(_) => Err(
                crate::source::SourceRegistryError::NotEncodable,
            ),
        }
    }

    /// Rebuilds a stored track: the payload is empty and the identifier numeric.
    pub fn decode_with_info(&self, info: &crate::track::TrackInfo, payload: &[u8]) -> (result:
        Result<YandexMusicSourceItem, crate::source::SourceRegistryError>)
        ensures
            payload@.len() == 0 && spec_valid_numeric(info.identifier@) ==> (result matches Ok(
                YandexMusicSourceItem::Track(t),
            ) && t.info@ == info@),
            !(payload@.len() == 0 && spec_valid_numeric(info.identifier@)) ==> result == Err::<
                YandexMusicSourceItem,
                crate::source::SourceRegistryError,
            >(crate::source::SourceRegistryError::SourceFailure),
    {
        if payload.len() != 0 || !valid_numeric_identifier(
            chars_of(info.identifier.as_str()).as_slice(),
        ) {
            return Err(crate::source::SourceRegistryError::SourceFailure);
        }
        Ok(YandexMusicSourceItem::Track(YandexMusicSourceTrack { info: info.duplicate() }))
    }

    /// Stops the manager; every later load fails as shut down.
    pub fn shutdown(&mut self)
        ensures
            final(self).is_shut_down(),
            final(self).spec_options() == old(self).spec_options(),
            final(self).spec_authentication() == old(self).spec_authentication(),
    {
        self.shutdown = true;
    }
}

// ---------------------------------------------------------------------------------------------
// Laws
// ---------------------------------------------------------------------------------------------

proof fn lemma_entries_fold_len(
    acc: Seq<crate::track::TrackInfoView>,
    items: Seq<YandexTrackItem>,
    domain: Seq<char>,
    options: YandexMusicSourceOptions,
)
    ensures
        entries_fold(acc, items, domain, options) matches Some(r) ==> acc.len() <= r.len() <= acc.len()
            + items.len(),
    decreases items.len(),
{
    if items.len() > 0 {
        match spec_track_item(items[0], None, domain, options) {
            None => {},
            Some(None) => lemma_entries_fold_len(acc, items.drop_first(), domain, options),
            Some(Some(t)) => lemma_entries_fold_len(acc.push(t), items.drop_first(), domain, options),
        }
    }
}

/// A collection answer never yields more tracks than it has entries, nor more than the
/// collection limit.
pub proof fn law_collection_is_bounded(
    entries: Seq<YandexTrackItem>,
    domain: Seq<char>,
    options: YandexMusicSourceOptions,
)
    ensures
        spec_collection(entries, domain, options) matches Some(tracks) ==> tracks.len()
            <= entries.len() && tracks.len() <= options.max_collection_tracks,
{
    lemma_entries_fold_len(Seq::empty(), entries, domain, options);
}

proof fn lemma_volume_entries_front(volumes: Seq<Vec<YandexTrackItem>>)
    requires
        volumes.len() > 0,
    ensures
        volume_entries(volumes) == volumes[0]@.len() + volume_entries(volumes.drop_first()),
    decreases volumes.len(),
{
    if volumes.len() > 1 {
        lemma_volume_entries_front(volumes.drop_last());
        assert(volumes.drop_last().drop_first() =~= volumes.drop_first().drop_last());
    } else {
        assert(volumes.drop_first() =~= Seq::<Vec<YandexTrackItem>>::empty());
        assert(volumes.drop_last() =~= Seq::<Vec<YandexTrackItem>>::empty());
    }
}

proof fn lemma_volumes_fold_len(
    acc: Seq<crate::track::TrackInfoView>,
    volumes: Seq<Vec<YandexTrackItem>>,
    domain: Seq<char>,
    options: YandexMusicSourceOptions,
)
    ensures
        volumes_fold(acc, volumes, domain, options) matches Some(r) ==> r.len() <= acc.len()
            + volume_entries(volumes),
    decreases volumes.len(),
{
    if volumes.len() > 0 {
        lemma_volume_entries_front(volumes);
        lemma_entries_fold_len(acc, volumes[0]@, domain, options);
        match entries_fold(acc, volumes[0]@, domain, options) {
            None => {},
            Some(next) => lemma_volumes_fold_len(next, volumes.drop_first(), domain, options),
        }
    }
}

/// An album never yields more tracks than the collection limit, across all its volumes.
pub proof fn law_album_is_bounded(
    album: YandexAlbum,
    album_id: Seq<char>,
    domain: Seq<char>,
    options: YandexMusicSourceOptions,
)
    ensures
        spec_album(album, album_id, domain, options) matches Some(Some(p)) ==> p.tracks.len()
            <= options.max_collection_tracks,
{
    lemma_volumes_fold_len(Seq::empty(), album.volumes@, domain, options);
}

/// Every track read from an answer carries a numeric identifier, which is what rebuilding a
/// stored track (`decode_with_info`) accepts.
pub proof fn law_loaded_tracks_can_be_stored(
    item: YandexTrackItem,
    requested: Option<Seq<char>>,
    domain: Seq<char>,
    options: YandexMusicSourceOptions,
)
    ensures
        spec_track_item(item, requested, domain, options) matches Some(Some(t))
            ==> spec_valid_numeric(t.identifier),
{
}

} // verus!
