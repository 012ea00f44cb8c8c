use vstd::prelude::*;

use vstd::utf8::encode_utf8;

use crate::bandcamp::{has_suffix, spec_bounded_string, trim_slashes};
use crate::duration::Duration;
use crate::hls::{HlsError, HlsMasterPlaylist, VariantView};
use crate::http_policy::HttpNetworkAccess;
use crate::playlist::{contains_char, seq_equal};
use crate::remote_http::{RemoteHttpError, RemoteHttpErrorKind, RemoteHttpOptions};
use crate::route_util::{ascii_lowercase, contains, opt_seq_is, to_ascii_lowercase, utf8_len, utf8_length};
use crate::soundcloud::{form_encode, replace_all, trim_end_slashes};
use crate::text::{chars_of, copy_range, has_prefix, split_once, split_once_chars, starts_with, string_from_chars};
use crate::track::{copy_text, opt_text};
use crate::uri::parse_uri;

verus! {

pub const MAX_CLIENT_ID_BYTES: usize = 256;

pub const MAX_ACCESS_TOKEN_BYTES: usize = 16 * 1024;

pub const MAX_DEVICE_ID_BYTES: usize = 1024;

pub const MAX_CONFIGURED_IDENTIFIER_BYTES: usize = 64 * 1024;

pub const MAX_CONFIGURED_METADATA_STRING_BYTES: usize = 1024 * 1024;

pub const MAX_CONFIGURED_RESPONSE_BYTES: u64 = 64 * 1024 * 1024;

pub const MAX_CONFIGURED_REQUEST_BYTES: usize = 1024 * 1024;

pub const MAX_CONFIGURED_PLAYBACK_TOKEN_BYTES: usize = 1024 * 1024;

pub const MAX_CONFIGURED_SIGNATURE_BYTES: usize = 64 * 1024;

pub const MAX_CONFIGURED_PLAYBACK_URL_BYTES: usize = 2 * 1024 * 1024;

pub const MAX_CHANNEL_BYTES: usize = 25;

// ---------------------------------------------------------------------------------------------
// Errors
// ---------------------------------------------------------------------------------------------

#[derive(Clone, Copy, Debug, PartialEq, Eq, Structural)]
pub enum TwitchErrorKind {
    InvalidOptions,
    InvalidAuthentication,
    Cancelled,
    Shutdown,
    Network,
    RateLimited,
    AuthenticationRequired,
    Offline,
    Unavailable,
    InvalidResponse,
    UnsupportedRoute,
}

#[derive(Clone, Copy, Debug, PartialEq, Eq, Structural)]
pub struct TwitchError {
    kind: TwitchErrorKind,
}

impl TwitchError {
    pub closed spec fn spec_kind(self) -> TwitchErrorKind {
        self.kind
    }

    pub fn new(kind: TwitchErrorKind) -> (error: Self)
        ensures
            error.spec_kind() == kind,
    {
        TwitchError { kind }
    }

    pub fn kind(self) -> (kind: TwitchErrorKind)
        ensures
            kind == self.spec_kind(),
    {
        self.kind
    }

    pub fn message(self) -> (text: &'static str)
        ensures
            text == (match self.spec_kind() {
                TwitchErrorKind::InvalidOptions => "invalid Twitch source policy",
                TwitchErrorKind::InvalidAuthentication => "invalid Twitch authentication policy",
                TwitchErrorKind::Cancelled => "Twitch load cancelled",
                TwitchErrorKind::Shutdown => "Twitch source is shut down",
                TwitchErrorKind::Network => "Twitch request failed",
                TwitchErrorKind::RateLimited => "Twitch rate limit reached",
                TwitchErrorKind::AuthenticationRequired => "Twitch rejected authentication",
                TwitchErrorKind::Offline => "Twitch channel is offline",
                TwitchErrorKind::Unavailable => "Twitch channel is unavailable",
                TwitchErrorKind::InvalidResponse => "Twitch returned an invalid response",
                TwitchErrorKind::UnsupportedRoute => "Twitch route is not implemented",
            }),
    {
        match self.kind {
            TwitchErrorKind::InvalidOptions => "invalid Twitch source policy",
            TwitchErrorKind::InvalidAuthentication => "invalid Twitch authentication policy",
            TwitchErrorKind::Cancelled => "Twitch load cancelled",
            TwitchErrorKind::Shutdown => "Twitch source is shut down",
            TwitchErrorKind::Network => "Twitch request failed",
            TwitchErrorKind::RateLimited => "Twitch rate limit reached",
            TwitchErrorKind::AuthenticationRequired => "Twitch rejected authentication",
            TwitchErrorKind::Offline => "Twitch channel is offline",
            TwitchErrorKind::Unavailable => "Twitch channel is unavailable",
            TwitchErrorKind::InvalidResponse => "Twitch returned an invalid response",
            TwitchErrorKind::UnsupportedRoute => "Twitch route is not implemented",
        }
    }
}

pub fn invalid_response() -> (error: TwitchError)
    ensures
        error.spec_kind() == TwitchErrorKind::InvalidResponse,
{
    TwitchError::new(TwitchErrorKind::InvalidResponse)
}

#[derive(Clone, Copy, Debug, PartialEq, Eq, Structural)]
pub enum TwitchPlaybackErrorKind {
    Source(TwitchErrorKind),
    InvalidOptions,
    Cancelled,
    Network,
    InvalidMedia,
    IncompatibleFormat,
    AudioPipeline,
}

#[derive(Clone, Copy, Debug, PartialEq, Eq, Structural)]
pub struct TwitchPlaybackError {
    kind: TwitchPlaybackErrorKind,
}

impl TwitchPlaybackError {
    pub closed spec fn spec_kind(self) -> TwitchPlaybackErrorKind {
        self.kind
    }

    pub fn new(kind: TwitchPlaybackErrorKind) -> (error: Self)
        ensures
            error.spec_kind() == kind,
    {
        TwitchPlaybackError { kind }
    }

    pub fn kind(self) -> (kind: TwitchPlaybackErrorKind)
        ensures
            kind == self.spec_kind(),
    {
        self.kind
    }

    pub fn message(self) -> (text: &'static str)
        ensures
            text == (match self.spec_kind() {
                TwitchPlaybackErrorKind::Source(_) => "Twitch playback discovery failed",
                TwitchPlaybackErrorKind::InvalidOptions => "invalid Twitch media policy",
                TwitchPlaybackErrorKind::Cancelled => "Twitch playback cancelled",
                TwitchPlaybackErrorKind::Network => "Twitch media request failed",
                TwitchPlaybackErrorKind::InvalidMedia => "Twitch returned invalid HLS media",
                TwitchPlaybackErrorKind::IncompatibleFormat => {
                    "Twitch media is not compatible MPEG-TS/AAC HLS"
                },
                TwitchPlaybackErrorKind::AudioPipeline => "Twitch audio processing failed",
            }),
    {
        match self.kind {
            TwitchPlaybackErrorKind::Source(_) => "Twitch playback discovery failed",
            TwitchPlaybackErrorKind::InvalidOptions => "invalid Twitch media policy",
            TwitchPlaybackErrorKind::Cancelled => "Twitch playback cancelled",
            TwitchPlaybackErrorKind::Network => "Twitch media request failed",
            TwitchPlaybackErrorKind::InvalidMedia => "Twitch returned invalid HLS media",
            TwitchPlaybackErrorKind::IncompatibleFormat => {
                "Twitch media is not compatible MPEG-TS/AAC HLS"
            },
            TwitchPlaybackErrorKind::AudioPipeline => "Twitch audio processing failed",
        }
    }
}

/// Remote failures of the metadata and token APIs.
pub open spec fn spec_map_remote_kind(kind: RemoteHttpErrorKind) -> TwitchErrorKind {
    match kind {
        RemoteHttpErrorKind::Cancelled => TwitchErrorKind::Cancelled,
        RemoteHttpErrorKind::RateLimited => TwitchErrorKind::RateLimited,
        RemoteHttpErrorKind::Unauthorized | RemoteHttpErrorKind::Forbidden => {
            TwitchErrorKind::AuthenticationRequired
        },
        RemoteHttpErrorKind::NotFound => TwitchErrorKind::Unavailable,
        _ => TwitchErrorKind::Network,
    }
}

pub fn map_remote_error(error: RemoteHttpError) -> (mapped: TwitchError)
    ensures
        mapped.spec_kind() == spec_map_remote_kind(error@.kind),
{
    TwitchError::new(
        match error.kind() {
            RemoteHttpErrorKind::Cancelled => TwitchErrorKind::Cancelled,
            RemoteHttpErrorKind::RateLimited => TwitchErrorKind::RateLimited,
            RemoteHttpErrorKind::Unauthorized | RemoteHttpErrorKind::Forbidden => {
                TwitchErrorKind::AuthenticationRequired
            },
            RemoteHttpErrorKind::NotFound => TwitchErrorKind::Unavailable,
            _ => TwitchErrorKind::Network,
        },
    )
}

pub fn map_playback_source_error(error: TwitchError) -> (mapped: TwitchPlaybackError)
    ensures
        mapped.spec_kind() == TwitchPlaybackErrorKind::Source(error.spec_kind()),
{
    TwitchPlaybackError::new(TwitchPlaybackErrorKind::Source(error.kind()))
}

/// How an HLS failure of the live playlist is reported: invalid limits are option errors, a
/// cancelled load is cancellation, I/O and playlist-fetch failures are network failures, and
/// everything else is invalid media.
pub fn map_hls_error(error: &HlsError) -> (mapped: TwitchPlaybackError)
    ensures
        match error {
            HlsError::InvalidLimits(_) => mapped.spec_kind() == TwitchPlaybackErrorKind::InvalidOptions,
            HlsError::Media(crate::media::MediaError::Cancelled) => mapped.spec_kind()
                == TwitchPlaybackErrorKind::Cancelled,
            HlsError::Media(crate::media::MediaError::Io(_)) | HlsError::Playlist(_) => mapped.spec_kind()
                == TwitchPlaybackErrorKind::Network,
            _ => mapped.spec_kind() == TwitchPlaybackErrorKind::InvalidMedia,
        },
{
    let kind = match error {
        HlsError::InvalidLimits(_) => TwitchPlaybackErrorKind::InvalidOptions,
        HlsError::Media(crate::media::MediaError::Cancelled) => TwitchPlaybackErrorKind::Cancelled,
        HlsError::Media(crate::media::MediaError::Io(_)) | HlsError::Playlist(_) => {
            TwitchPlaybackErrorKind::Network
        },
        _ => TwitchPlaybackErrorKind::InvalidMedia,
    };
    TwitchPlaybackError::new(kind)
}

// ---------------------------------------------------------------------------------------------
// Authentication
// ---------------------------------------------------------------------------------------------

/// Explicit API and playback client credentials.
#[derive(Clone, PartialEq, Eq)]
pub struct TwitchAuthentication {
    client_id: String,
    access_token: String,
    device_id: Option<String>,
}

impl TwitchAuthentication {
    pub closed spec fn spec_client_id(&self) -> Seq<char> {
        self.client_id@
    }

    pub closed spec fn spec_access_token(&self) -> Seq<char> {
        self.access_token@
    }

    pub closed spec fn spec_device_id(&self) -> Option<Seq<char>> {
        opt_text(self.device_id)
    }

    /// A client-ID and OAuth access-token policy.
    pub fn new(client_id: String, access_token: String) -> (result: Result<Self, TwitchError>)
        ensures
            crate::soundcloud::valid_credential(client_id@, MAX_CLIENT_ID_BYTES as int)
                && crate::soundcloud::valid_credential(access_token@, MAX_ACCESS_TOKEN_BYTES as int)
                ==> (result matches Ok(a) && a.spec_client_id() == client_id@
                && a.spec_access_token() == access_token@ && a.spec_device_id() is None),
            !(crate::soundcloud::valid_credential(client_id@, MAX_CLIENT_ID_BYTES as int)
                && crate::soundcloud::valid_credential(access_token@, MAX_ACCESS_TOKEN_BYTES as int))
                ==> (result matches Err(e) && e.spec_kind()
                == TwitchErrorKind::InvalidAuthentication),
    {
        Self::with_device_id(client_id, access_token, None)
    }

    /// A credential policy with an optional caller-owned playback device ID.
    pub fn with_device_id(
        client_id: String,
        access_token: String,
        device_id: Option<String>,
    ) -> (result: Result<Self, TwitchError>)
        ensures
            ({
                &&& crate::soundcloud::valid_credential(client_id@, MAX_CLIENT_ID_BYTES as int)
                &&& crate::soundcloud::valid_credential(access_token@, MAX_ACCESS_TOKEN_BYTES as int)
                &&& match device_id {
                    Some(d) => crate::soundcloud::valid_credential(d@, MAX_DEVICE_ID_BYTES as int),
                    None => true,
                }
            }) ==> (result matches Ok(a) && a.spec_client_id() == client_id@
                && a.spec_access_token() == access_token@ && a.spec_device_id() == opt_text(
                device_id,
            )),
            !({
                &&& crate::soundcloud::valid_credential(client_id@, MAX_CLIENT_ID_BYTES as int)
                &&& crate::soundcloud::valid_credential(access_token@, MAX_ACCESS_TOKEN_BYTES as int)
                &&& match device_id {
                    Some(d) => crate::soundcloud::valid_credential(d@, MAX_DEVICE_ID_BYTES as int),
                    None => true,
                }
            }) ==> (result matches Err(e) && e.spec_kind()
                == TwitchErrorKind::InvalidAuthentication),
    {
        let device_ok = match &device_id {
            Some(d) => crate::soundcloud::is_valid_credential(d.as_str(), MAX_DEVICE_ID_BYTES),
            None => true,
        };
        if !crate::soundcloud::is_valid_credential(client_id.as_str(), MAX_CLIENT_ID_BYTES)
            || !crate::soundcloud::is_valid_credential(access_token.as_str(), MAX_ACCESS_TOKEN_BYTES)
            || !device_ok {
            return Err(TwitchError::new(TwitchErrorKind::InvalidAuthentication));
        }
        Ok(TwitchAuthentication { client_id, access_token, device_id })
    }

    pub fn device_id_configured(&self) -> (configured: bool)
        ensures
            configured == self.spec_device_id() is Some,
    {
        self.device_id.is_some()
    }

    pub fn client_id(&self) -> (id: &str)
        ensures
            id@ == self.spec_client_id(),
    {
        self.client_id.as_str()
    }

    pub fn access_token(&self) -> (token: &str)
        ensures
            token@ == self.spec_access_token(),
    {
        self.access_token.as_str()
    }

    pub fn device_id(&self) -> (id: Option<&str>)
        ensures
            match id {
                Some(d) => self.spec_device_id() == Some(d@),
                None => self.spec_device_id() is None,
            },
    {
        match &self.device_id {
            Some(d) => Some(d.as_str()),
            None => None,
        }
    }
}

// ---------------------------------------------------------------------------------------------
// Options
// ---------------------------------------------------------------------------------------------

/// Scheme policy for expiring Usher and HLS URLs.
#[derive(Clone, Copy, Debug, PartialEq, Eq, Structural)]
pub enum TwitchPlaybackScheme {
    Https,
    /// Permit HTTP only alongside the explicit private-network source policy, for trusted
    /// loopback replay; never for public service traffic.
    HttpForPrivateNetworks,
}

/// Bounded metadata, compatibility-query and signed-URL policy.
#[derive(Clone, Debug, PartialEq, Eq)]
pub struct TwitchSourceOptions {
    pub http: RemoteHttpOptions,
    pub helix_base_url: String,
    pub gql_url: String,
    pub usher_base_url: String,
    pub max_identifier_bytes: usize,
    pub max_metadata_string_bytes: usize,
    pub max_response_bytes: u64,
    pub max_gql_request_bytes: usize,
    pub max_playback_token_bytes: usize,
    pub max_signature_bytes: usize,
    pub max_playback_url_bytes: usize,
    pub playback_scheme: TwitchPlaybackScheme,
}

/// An API base URL: bounded, without query, fragment or user information, an HTTP(S) URI with an
/// authority (HTTP only with private networks allowed) that is accepted as a request URL.
pub open spec fn spec_valid_base_url(base: Seq<char>, http: RemoteHttpOptions) -> bool {
    &&& base.len() > 0
    &&& utf8_len(base) <= MAX_CONFIGURED_IDENTIFIER_BYTES
    &&& !contains_char(base, '?')
    &&& !contains_char(base, '#')
    &&& !contains_char(base, '@')
    &&& match crate::uri::parsed_uri(base) {
        None => false,
        Some(u) => (u.scheme == Some("http"@) || u.scheme == Some("https"@)) && u.authority is Some
            && !(u.scheme == Some("http"@) && http.network_access
            != HttpNetworkAccess::AllowPrivateNetworks) && crate::remote_http::spec_remote_uri(
            base,
        ) is Some,
    }
}

pub fn validate_base_url(base: &str, http: &RemoteHttpOptions) -> (result: Result<(), TwitchError>)
    ensures
        spec_valid_base_url(base@, *http) ==> result is Ok,
        !spec_valid_base_url(base@, *http) ==> (result matches Err(e) && e.spec_kind()
            == TwitchErrorKind::InvalidOptions),
{
    let text = chars_of(base);
    if text.len() == 0 || utf8_length(text.as_slice()) > MAX_CONFIGURED_IDENTIFIER_BYTES || contains(
        text.as_slice(),
        '?',
    ) || contains(text.as_slice(), '#') || contains(text.as_slice(), '@') {
        return Err(TwitchError::new(TwitchErrorKind::InvalidOptions));
    }
    let uri = match parse_uri(text.as_slice()) {
        Some(u) => u,
        None => {
            return Err(TwitchError::new(TwitchErrorKind::InvalidOptions));
        },
    };
    if !(opt_seq_is(&uri.scheme, "http") || opt_seq_is(&uri.scheme, "https"))
        || uri.authority.is_none() {
        return Err(TwitchError::new(TwitchErrorKind::InvalidOptions));
    }
    if opt_seq_is(&uri.scheme, "http") && http.network_access
        != HttpNetworkAccess::AllowPrivateNetworks {
        return Err(TwitchError::new(TwitchErrorKind::InvalidOptions));
    }
    if crate::remote_http::parse_remote_uri(base).is_err() {
        return Err(TwitchError::new(TwitchErrorKind::InvalidOptions));
    }
    Ok(())
}

impl TwitchSourceOptions {
    pub fn default_options() -> (options: Self)
        ensures
            crate::remote_http::is_default_remote_options(options.http),
            options.helix_base_url@ == "https://api.twitch.tv/helix"@,
            options.gql_url@ == "https://gql.twitch.tv/gql"@,
            options.usher_base_url@ == "https://usher.ttvnw.net/api/channel/hls"@,
            options.max_identifier_bytes == 8 * 1024,
            options.max_metadata_string_bytes == 64 * 1024,
            options.max_response_bytes == 2 * 1024 * 1024,
            options.max_gql_request_bytes == 64 * 1024,
            options.max_playback_token_bytes == 256 * 1024,
            options.max_signature_bytes == 16 * 1024,
            options.max_playback_url_bytes == 512 * 1024,
            options.playback_scheme == TwitchPlaybackScheme::Https,
    {
        TwitchSourceOptions {
            http: RemoteHttpOptions::default_options(),
            helix_base_url: copy_text("https://api.twitch.tv/helix"),
            gql_url: copy_text("https://gql.twitch.tv/gql"),
            usher_base_url: copy_text("https://usher.ttvnw.net/api/channel/hls"),
            max_identifier_bytes: 8 * 1024,
            max_metadata_string_bytes: 64 * 1024,
            max_response_bytes: 2 * 1024 * 1024,
            max_gql_request_bytes: 64 * 1024,
            max_playback_token_bytes: 256 * 1024,
            max_signature_bytes: 16 * 1024,
            max_playback_url_bytes: 512 * 1024,
            playback_scheme: TwitchPlaybackScheme::Https,
        }
    }

    pub open spec fn bounds_valid(&self) -> bool {
        &&& 0 < self.max_identifier_bytes <= MAX_CONFIGURED_IDENTIFIER_BYTES
        &&& 0 < self.max_metadata_string_bytes <= MAX_CONFIGURED_METADATA_STRING_BYTES
        &&& 0 < self.max_response_bytes <= MAX_CONFIGURED_RESPONSE_BYTES
        &&& self.max_response_bytes <= self.http.max_response_bytes
        &&& 0 < self.max_gql_request_bytes <= MAX_CONFIGURED_REQUEST_BYTES
        &&& 0 < self.max_playback_token_bytes <= MAX_CONFIGURED_PLAYBACK_TOKEN_BYTES
        &&& 0 < self.max_signature_bytes <= MAX_CONFIGURED_SIGNATURE_BYTES
        &&& 0 < self.max_playback_url_bytes <= MAX_CONFIGURED_PLAYBACK_URL_BYTES
        &&& !(self.playback_scheme == TwitchPlaybackScheme::HttpForPrivateNetworks
            && self.http.network_access != HttpNetworkAccess::AllowPrivateNetworks)
    }

    pub open spec fn is_valid(&self) -> bool {
        &&& self.bounds_valid()
        &&& spec_valid_base_url(self.helix_base_url@, self.http)
        &&& spec_valid_base_url(self.gql_url@, self.http)
        &&& spec_valid_base_url(self.usher_base_url@, self.http)
    }

    pub fn validate(&self) -> (result: Result<(), TwitchError>)
        ensures
            self.is_valid() ==> result is Ok,
            !self.is_valid() ==> (result matches Err(e) && e.spec_kind()
                == TwitchErrorKind::InvalidOptions),
    {
        if self.max_identifier_bytes == 0 || self.max_identifier_bytes
            > MAX_CONFIGURED_IDENTIFIER_BYTES || self.max_metadata_string_bytes == 0
            || self.max_metadata_string_bytes > MAX_CONFIGURED_METADATA_STRING_BYTES
            || self.max_response_bytes == 0 || self.max_response_bytes
            > MAX_CONFIGURED_RESPONSE_BYTES || self.max_response_bytes
            > self.http.max_response_bytes || self.max_gql_request_bytes == 0
            || self.max_gql_request_bytes > MAX_CONFIGURED_REQUEST_BYTES
            || self.max_playback_token_bytes == 0 || self.max_playback_token_bytes
            > MAX_CONFIGURED_PLAYBACK_TOKEN_BYTES || self.max_signature_bytes == 0
            || self.max_signature_bytes > MAX_CONFIGURED_SIGNATURE_BYTES
            || self.max_playback_url_bytes == 0 || self.max_playback_url_bytes
            > MAX_CONFIGURED_PLAYBACK_URL_BYTES || (self.playback_scheme
            == TwitchPlaybackScheme::HttpForPrivateNetworks && self.http.network_access
            != HttpNetworkAccess::AllowPrivateNetworks) {
            return Err(TwitchError::new(TwitchErrorKind::InvalidOptions));
        }
        validate_base_url(self.helix_base_url.as_str(), &self.http)?;
        validate_base_url(self.gql_url.as_str(), &self.http)?;
        validate_base_url(self.usher_base_url.as_str(), &self.http)
    }
}

// ---------------------------------------------------------------------------------------------
// Routing
// ---------------------------------------------------------------------------------------------

/// A strict current live-channel route.
#[derive(Clone, Debug, PartialEq, Eq)]
pub struct TwitchRoute {
    pub channel: String,
}

impl TwitchRoute {
    /// The channel page.
    pub fn canonical_url(&self) -> (url: String)
        ensures
            url@ == "https://www.twitch.tv/"@ + self.channel@,
    {
        let mut out = chars_of("https://www.twitch.tv/");
        let mut channel = chars_of(self.channel.as_str());
        let ghost head = out@;
        let ghost tail = channel@;
        out.append(&mut channel);
        proof {
            assert(out@ =~= head + tail);
        }
        string_from_chars(out.as_slice())
    }
}

pub open spec fn channel_char(c: char) -> bool {
    ('a' <= c && c <= 'z') || ('A' <= c && c <= 'Z') || ('0' <= c && c <= '9') || c == '_'
}

/// A channel login: 1 to 25 ASCII letters, digits or underscores.
pub open spec fn spec_valid_channel(channel: Seq<char>) -> bool {
    &&& channel.len() > 0
    &&& channel.len() <= MAX_CHANNEL_BYTES
    &&& forall|i: int| 0 <= i < channel.len() ==> channel_char(#[trigger] channel[i])
}

pub fn valid_channel(channel: &[char]) -> (valid: bool)
    ensures
        valid == spec_valid_channel(channel@),
{
    if channel.len() == 0 || channel.len() > MAX_CHANNEL_BYTES {
        return false;
    }
    let mut i: usize = 0;
    while i < channel.len()
        invariant
            i <= channel@.len(),
            forall|j: int| 0 <= j < i ==> channel_char(#[trigger] channel@[j]),
        decreases channel@.len() - i,
    {
        let c = channel[i];
        if !(('a' <= c && c <= 'z') || ('A' <= c && c <= 'Z') || ('0' <= c && c <= '9') || c
            == '_') {
            return false;
        }
        i = i + 1;
    }
    true
}

/// Site paths that are not channels.
pub open spec fn spec_reserved_path(channel: Seq<char>) -> bool {
    channel == "directory"@ || channel == "downloads"@ || channel == "inventory"@ || channel
        == "jobs"@ || channel == "login"@ || channel == "p"@ || channel == "products"@ || channel
        == "search"@ || channel == "settings"@ || channel == "subscriptions"@ || channel == "turbo"@
        || channel == "videos"@ || channel == "wallet"@
}

fn is_text(s: &[char], literal: &str) -> (result: bool)
    ensures
        result == (s@ == literal@),
{
    seq_equal(s, chars_of(literal).as_slice())
}

pub fn reserved_path(channel: &[char]) -> (reserved: bool)
    ensures
        reserved == spec_reserved_path(channel@),
{
    is_text(channel, "directory") || is_text(channel, "downloads") || is_text(channel, "inventory")
        || is_text(channel, "jobs") || is_text(channel, "login") || is_text(channel, "p") || is_text(
        channel,
        "products",
    ) || is_text(channel, "search") || is_text(channel, "settings") || is_text(
        channel,
        "subscriptions",
    ) || is_text(channel, "turbo") || is_text(channel, "videos") || is_text(channel, "wallet")
}

pub open spec fn twitch_host(host: Seq<char>) -> bool {
    host == "twitch.tv"@ || host == "www.twitch.tv"@ || host == "go.twitch.tv"@ || host
        == "m.twitch.tv"@
}

/// Accepts a bounded channel URL on a Twitch host (scheme optional, query dropped, host and
/// channel case-insensitive) whose path is one valid, unreserved channel login.
pub open spec fn spec_route_twitch(identifier: Seq<char>, options: TwitchSourceOptions) -> Option<
    Seq<char>,
> {
    if identifier.len() == 0 || utf8_len(identifier) > options.max_identifier_bytes
        || contains_char(identifier, '#') {
        None
    } else {
        let base = crate::bandcamp::without_query(identifier);
        let normalized = if has_prefix(base, "http://"@) || has_prefix(base, "https://"@) {
            base
        } else {
            "https://"@ + base
        };
        match crate::uri::parsed_uri(normalized) {
            None => None,
            Some(u) => if !(u.scheme == Some("http"@) || u.scheme == Some("https"@))
                || u.authority is None || contains_char(u.authority->0, '@') || u.host
                != u.authority || !twitch_host(ascii_lowercase(u.host->0)) {
                None
            } else {
                let channel = ascii_lowercase(trim_slashes(u.path));
                if !spec_valid_channel(channel) || spec_reserved_path(channel) {
                    None
                } else {
                    Some(channel)
                }
            },
        }
    }
}

/// The channel of a canonical channel URL `https://www.twitch.tv/<channel>` whose channel is a
/// valid, lowercase, unreserved login and whose length is within the identifier byte bound.
pub open spec fn canonical_channel(text: Seq<char>, options: TwitchSourceOptions) -> Option<
    Seq<char>,
> {
    let channel = text.skip("https://www.twitch.tv/"@.len() as int);
    if has_prefix(text, "https://www.twitch.tv/"@) && spec_valid_channel(channel) && ascii_lowercase(
        channel,
    ) == channel && !spec_reserved_path(channel) && utf8_len(text) <= options.max_identifier_bytes {
        Some(channel)
    } else {
        None
    }
}

/// Lowercasing twice is lowercasing once.
pub proof fn lemma_ascii_lowercase_idempotent(s: Seq<char>)
    ensures
        ascii_lowercase(ascii_lowercase(s)) == ascii_lowercase(s),
{
    assert forall|i: int| 0 <= i < s.len() implies #[trigger] crate::route_util::lower_char(
        crate::route_util::lower_char(s[i]),
    ) == crate::route_util::lower_char(s[i]) by {
        let c = s[i];
        if 'A' <= c && c <= 'Z' {
            assert(crate::route_util::lower_char(c) == ((c as u8) + 32) as char);
        }
    }
    assert(ascii_lowercase(ascii_lowercase(s)) =~= ascii_lowercase(s));
}

/// A canonical channel URL has no query, no fragment and the HTTPS prefix, and it is the plain
/// URL `https://www.twitch.tv/<channel>` for the URI parser.
proof fn lemma_canonical_shape(text: Seq<char>, options: TwitchSourceOptions)
    requires
        canonical_channel(text, options) is Some,
    ensures
        text.len() > 0,
        !contains_char(text, '#'),
        crate::bandcamp::without_query(text) == text,
        has_prefix(text, "https://"@),
        crate::uri::plain_https_parts(text) == Some(
            crate::uri::UriView {
                scheme: Some("https"@),
                authority: Some("www.twitch.tv"@),
                host: Some("www.twitch.tv"@),
                path: seq!['/'] + canonical_channel(text, options)->0,
                query: None,
                text,
            },
        ),
{
    reveal_strlit("https://www.twitch.tv/");
    reveal_strlit("https://");
    reveal_strlit("www.twitch.tv");
    let prefix = "https://www.twitch.tv/"@;
    let c = canonical_channel(text, options)->0;
    assert(text =~= prefix + c);
    assert forall|j: int| 0 <= j < text.len() implies text[j] != '#' && text[j] != '?' by {
        if j >= prefix.len() {
            assert(text[j] == c[j - prefix.len()]);
            assert(channel_char(c[j - prefix.len()]));
        }
    }
    crate::text::lemma_find_char(text, '#');
    crate::text::lemma_find_char(text, '?');
    assert(text.take(8) =~= "https://"@);
    let rest = text.skip(8);
    assert(rest =~= "www.twitch.tv/"@ + c) by {
        reveal_strlit("www.twitch.tv/");
    }
    reveal_strlit("www.twitch.tv/");
    crate::text::lemma_find_char(rest, '/');
    assert(rest[13] == '/');
    assert forall|j: int| 0 <= j < 13 implies rest[j] != '/' by {}
    assert(crate::text::find_char(rest, '/') == Some(13int));
    assert(rest.take(13) =~= "www.twitch.tv"@);
    assert(rest.skip(14) =~= c);
    assert forall|j: int| 0 <= j < c.len() implies crate::uri::plain_segment_char(c[j]) by {
        assert(channel_char(c[j]));
    }
    assert(text.len() <= 65_534) by {
        assert(c.len() <= MAX_CHANNEL_BYTES);
    }
}

/// When the parser reads a canonical channel URL by its parts, routing it gives its channel.
proof fn lemma_canonical_routes(text: Seq<char>, options: TwitchSourceOptions)
    requires
        canonical_channel(text, options) is Some,
        crate::uri::parsed_uri(text) == crate::uri::plain_https_parts(text),
    ensures
        spec_route_twitch(text, options) == canonical_channel(text, options),
{
    lemma_canonical_shape(text, options);
    reveal_strlit("https");
    reveal_strlit("http");
    reveal_strlit("www.twitch.tv");
    let c = canonical_channel(text, options)->0;
    let host = "www.twitch.tv"@;
    assert(ascii_lowercase(host) =~= host);
    crate::text::lemma_find_char(host, '@');
    let path = seq!['/'] + c;
    assert(path.drop_first() =~= c);
    assert(trim_slashes(path) == trim_slashes(c));
    assert(c[0] != '/' && c.last() != '/') by {
        assert(channel_char(c[0]));
        assert(channel_char(c[c.len() - 1]));
    }
    assert(trim_slashes(c) == c);
}

/// A routed channel's canonical URL, when it fits the identifier byte bound, is a canonical
/// channel URL of that channel, so routing it (see [`route_twitch_identifier`]) gives the route
/// back.
pub proof fn law_routed_channel_has_canonical_url(identifier: Seq<char>, options: TwitchSourceOptions)
    requires
        spec_route_twitch(identifier, options) is Some,
        utf8_len("https://www.twitch.tv/"@ + spec_route_twitch(identifier, options)->0)
            <= options.max_identifier_bytes,
    ensures
        canonical_channel(
            "https://www.twitch.tv/"@ + spec_route_twitch(identifier, options)->0,
            options,
        ) == spec_route_twitch(identifier, options),
{
    let c = spec_route_twitch(identifier, options)->0;
    let text = "https://www.twitch.tv/"@ + c;
    let base = crate::bandcamp::without_query(identifier);
    let normalized = if has_prefix(base, "http://"@) || has_prefix(base, "https://"@) {
        base
    } else {
        "https://"@ + base
    };
    let u = crate::uri::parsed_uri(normalized)->0;
    lemma_ascii_lowercase_idempotent(trim_slashes(u.path));
    assert(text.take("https://www.twitch.tv/"@.len() as int) =~= "https://www.twitch.tv/"@);
    assert(text.skip("https://www.twitch.tv/"@.len() as int) =~= c);
}

fn concat_chars(a: &[char], b: &[char]) -> (result: Vec<char>)
    ensures
        result@ == a@ + b@,
{
    let mut out = copy_range(a, 0, a.len());
    let mut tail = copy_range(b, 0, b.len());
    let ghost x = out@;
    let ghost y = tail@;
    out.append(&mut tail);
    proof {
        assert(a@.subrange(0, a@.len() as int) =~= a@);
        assert(b@.subrange(0, b@.len() as int) =~= b@);
        assert(out@ =~= x + y);
    }
    out
}

/// Routes one strict live-channel URL without network access.
pub fn route_twitch_identifier(identifier: &str, options: &TwitchSourceOptions) -> (route: Option<
    TwitchRoute,
>)
    ensures
        match spec_route_twitch(identifier@, *options) {
            Some(c) => route matches Some(r) && r.channel@ == c,
            None => route is None,
        },
        canonical_channel(identifier@, *options) matches Some(c) ==> route matches Some(r)
            && r.channel@ == c,
{
    proof {
        if canonical_channel(identifier@, *options) is Some {
            lemma_canonical_shape(identifier@, *options);
        }
    }
    let text = chars_of(identifier);
    if text.len() == 0 || utf8_length(text.as_slice()) > options.max_identifier_bytes || contains(
        text.as_slice(),
        '#',
    ) {
        return None;
    }
    let base = match split_once_chars(text.as_slice(), '?') {
        Some((head, _)) => head,
        None => copy_range(text.as_slice(), 0, text.len()),
    };
    proof {
        assert(text@.subrange(0, text@.len() as int) =~= text@);
    }
    let https = chars_of("https://");
    let normalized = if starts_with(base.as_slice(), chars_of("http://").as_slice()) || starts_with(
        base.as_slice(),
        https.as_slice(),
    ) {
        base
    } else {
        concat_chars(https.as_slice(), base.as_slice())
    };
    let uri = parse_uri(normalized.as_slice())?;
    proof {
        if canonical_channel(identifier@, *options) is Some {
            lemma_canonical_routes(identifier@, *options);
        }
    }
    if !(opt_seq_is(&uri.scheme, "http") || opt_seq_is(&uri.scheme, "https")) {
        return None;
    }
    let authority = match &uri.authority {
        Some(a) => a,
        None => {
            return None;
        },
    };
    if contains(authority.as_slice(), '@') {
        return None;
    }
    let raw_host = match &uri.host {
        Some(h) => h,
        None => {
            return None;
        },
    };
    if !seq_equal(raw_host.as_slice(), authority.as_slice()) {
        return None;
    }
    let host = to_ascii_lowercase(raw_host.as_slice());
    if !(is_text(host.as_slice(), "twitch.tv") || is_text(host.as_slice(), "www.twitch.tv")
        || is_text(host.as_slice(), "go.twitch.tv") || is_text(host.as_slice(), "m.twitch.tv")) {
        return None;
    }
    let trimmed = crate::bandcamp::trim_slash_chars(uri.path.as_slice());
    let channel = to_ascii_lowercase(trimmed.as_slice());
    if !valid_channel(channel.as_slice()) || reserved_path(channel.as_slice()) {
        return None;
    }
    Some(TwitchRoute { channel: string_from_chars(channel.as_slice()) })
}

} // verus!

verus! {

// ---------------------------------------------------------------------------------------------
// Stream metadata
// ---------------------------------------------------------------------------------------------

/// One entry of a Helix `streams` answer: `type`, `user_login`, `title`, `user_name` and
/// `thumbnail_url`, each when it is a string.
#[derive(Clone, Debug, PartialEq, Eq)]
pub struct TwitchStreamData {
    pub stream_type: Option<String>,
    pub user_login: Option<String>,
    pub title: Option<String>,
    pub user_name: Option<String>,
    pub thumbnail_url: Option<String>,
}

/// A live channel with its track details.
#[derive(Debug, PartialEq, Eq)]
pub struct TwitchSourceTrack {
    pub info: crate::track::TrackInfo,
    pub channel: String,
}

/// The thumbnail template with its size filled in.
pub open spec fn thumbnail(template: Seq<char>) -> Seq<char> {
    replace_all(replace_all(template, "{width}"@, "440"@), "{height}"@, "248"@)
}

/// What a Helix `streams` answer (its `data` list when an array) says about a routed channel:
/// `Err` with the failure kind, or the title, author and artwork URL of the live stream.
pub open spec fn spec_helix_stream(
    data: Option<Seq<TwitchStreamData>>,
    channel: Seq<char>,
    options: TwitchSourceOptions,
) -> Result<(Seq<char>, Seq<char>, Option<Seq<char>>), TwitchErrorKind> {
    let meta = options.max_metadata_string_bytes as int;
    match data {
        None => Err(TwitchErrorKind::InvalidResponse),
        Some(list) => if list.len() == 0 {
            Err(TwitchErrorKind::Offline)
        } else if list.len() != 1 {
            Err(TwitchErrorKind::InvalidResponse)
        } else if opt_text(list[0].stream_type) != Some("live"@) {
            Err(TwitchErrorKind::Offline)
        } else {
            let s = list[0];
            match spec_bounded_string(opt_text(s.user_login), MAX_CHANNEL_BYTES as int) {
                None => Err(TwitchErrorKind::InvalidResponse),
                Some(raw_login) => {
                    let login = ascii_lowercase(raw_login);
                    if login != channel || !spec_valid_channel(login) {
                        Err(TwitchErrorKind::InvalidResponse)
                    } else {
                        match (
                            spec_bounded_string(opt_text(s.title), meta),
                            crate::soundcloud::spec_bounded_optional(opt_text(s.user_name), meta),
                            crate::soundcloud::spec_bounded_optional(
                                opt_text(s.thumbnail_url),
                                meta,
                            ),
                        ) {
                            (Some(title), Some(author), Some(artwork)) => {
                                let artwork_url = match artwork {
                                    Some(t) => Some(thumbnail(t)),
                                    None => None,
                                };
                                if artwork_url matches Some(a) && utf8_len(a) > meta {
                                    Err(TwitchErrorKind::InvalidResponse)
                                } else {
                                    Ok(
                                        (
                                            title,
                                            match author {
                                                Some(a) => a,
                                                None => channel,
                                            },
                                            artwork_url,
                                        ),
                                    )
                                }
                            },
                            _ => Err(TwitchErrorKind::InvalidResponse),
                        }
                    }
                },
            }
        },
    }
}

fn bounded(value: &Option<String>, limit: usize) -> (result: Result<String, TwitchError>)
    ensures
        match spec_bounded_string(opt_text(*value), limit as int) {
            Some(s) => result matches Ok(r) && r@ == s,
            None => result matches Err(e) && e.spec_kind() == TwitchErrorKind::InvalidResponse,
        },
{
    let v = match value {
        Some(v) => v.as_str(),
        None => {
            return Err(invalid_response());
        },
    };
    match crate::bandcamp::bounded_string(Some(v), limit) {
        Ok(s) => Ok(s),
        Err(_) => Err(invalid_response()),
    }
}

fn bounded_optional(value: &Option<String>, limit: usize) -> (result: Result<
    Option<String>,
    TwitchError,
>)
    ensures
        match crate::soundcloud::spec_bounded_optional(opt_text(*value), limit as int) {
            Some(a) => result matches Ok(r) && opt_text(r) == a,
            None => result matches Err(e) && e.spec_kind() == TwitchErrorKind::InvalidResponse,
        },
{
    match value {
        None => Ok(None),
        Some(_) => Ok(Some(bounded(value, limit)?)),
    }
}

/// Reads the live stream of a routed channel from a Helix `streams` answer.
pub fn parse_helix_stream(
    data: &Option<Vec<TwitchStreamData>>,
    route: &TwitchRoute,
    options: &TwitchSourceOptions,
) -> (result: Result<TwitchSourceTrack, TwitchError>)
    ensures
        match spec_helix_stream(
            match data {
                Some(v) => Some(v@),
                None => None,
            },
            route.channel@,
            *options,
        ) {
            Ok((title, author, artwork)) => result matches Ok(t) && t.info@ == (
            crate::track::TrackInfoView {
                title,
                author,
                duration: 0,
                identifier: "https://www.twitch.tv/"@ + route.channel@,
                is_stream: true,
                uri: Some("https://www.twitch.tv/"@ + route.channel@),
                artwork_url: artwork,
                isrc: None,
            }) && t.channel@ == route.channel@,
            Err(kind) => result matches Err(e) && e.spec_kind() == kind,
        },
{
    let list = match data {
        Some(l) => l,
        None => {
            return Err(invalid_response());
        },
    };
    if list.len() == 0 {
        return Err(TwitchError::new(TwitchErrorKind::Offline));
    }
    if list.len() != 1 {
        return Err(invalid_response());
    }
    let stream = &list[0];
    let live = match &stream.stream_type {
        Some(t) => is_text(chars_of(t.as_str()).as_slice(), "live"),
        None => false,
    };
    if !live {
        return Err(TwitchError::new(TwitchErrorKind::Offline));
    }
    let raw_login = bounded(&stream.user_login, MAX_CHANNEL_BYTES)?;
    let login = to_ascii_lowercase(chars_of(raw_login.as_str()).as_slice());
    if !seq_equal(login.as_slice(), chars_of(route.channel.as_str()).as_slice()) || !valid_channel(
        login.as_slice(),
    ) {
        return Err(invalid_response());
    }
    let meta = options.max_metadata_string_bytes;
    let title = bounded(&stream.title, meta);
    let author = bounded_optional(&stream.user_name, meta);
    let artwork = bounded_optional(&stream.thumbnail_url, meta);
    let (title, author, artwork) = match (title, author, artwork) {
        (Ok(t), Ok(a), Ok(w)) => (t, a, w),
        _ => {
            return Err(invalid_response());
        },
    };
    proof {
        reveal_strlit("{width}");
        reveal_strlit("{height}");
    }
    let artwork_url = match artwork {
        Some(template) => {
            let wide = crate::soundcloud::replace_text(
                chars_of(template.as_str()).as_slice(),
                "{width}",
                "440",
            );
            let sized = crate::soundcloud::replace_text(wide.as_slice(), "{height}", "248");
            if utf8_length(sized.as_slice()) > meta {
                return Err(invalid_response());
            }
            Some(string_from_chars(sized.as_slice()))
        },
        None => None,
    };
    let author = match author {
        Some(a) => a,
        None => copy_text(route.channel.as_str()),
    };
    let canonical = route.canonical_url();
    Ok(
        TwitchSourceTrack {
            info: crate::track::TrackInfo {
                title,
                author,
                duration: Duration::zero(),
                identifier: copy_text(canonical.as_str()),
                is_stream: true,
                uri: Some(canonical),
                artwork_url,
                isrc: None,
            },
            channel: copy_text(route.channel.as_str()),
        },
    )
}

// ---------------------------------------------------------------------------------------------
// Playback URLs
// ---------------------------------------------------------------------------------------------

/// A signed Usher master-playlist URL. Its diagnostics always redact the value.
#[derive(Clone, PartialEq, Eq)]
pub struct TwitchPlaybackUrl {
    url: String,
}

impl TwitchPlaybackUrl {
    pub closed spec fn spec_url(&self) -> Seq<char> {
        self.url@
    }

    pub fn as_str(&self) -> (url: &str)
        ensures
            url@ == self.spec_url(),
    {
        self.url.as_str()
    }
}

/// A signed URL: bounded, parsed with an authority, over HTTPS on `ttvnw.net` or a subdomain
/// (any HTTP(S) URL for private-network replay), with no user information and no fragment.
pub open spec fn spec_valid_playback_url(url: Seq<char>, options: TwitchSourceOptions) -> bool {
    &&& utf8_len(url) <= options.max_playback_url_bytes
    &&& match crate::uri::parsed_uri(url) {
        None => false,
        Some(u) => match u.authority {
            None => false,
            Some(authority) => {
                let valid = match options.playback_scheme {
                    TwitchPlaybackScheme::Https => {
                        &&& u.scheme == Some("https"@)
                        &&& u.host is Some
                        &&& (u.host->0 == "ttvnw.net"@ || has_suffix(u.host->0, ".ttvnw.net"@))
                    },
                    TwitchPlaybackScheme::HttpForPrivateNetworks => {
                        u.scheme == Some("http"@) || u.scheme == Some("https"@)
                    },
                };
                valid && !contains_char(authority, '@') && !contains_char(url, '#')
            },
        },
    }
}

pub fn validate_playback_url(url: String, options: &TwitchSourceOptions) -> (result: Result<
    TwitchPlaybackUrl,
    TwitchError,
>)
    ensures
        spec_valid_playback_url(url@, *options) ==> (result matches Ok(p) && p.spec_url() == url@),
        !spec_valid_playback_url(url@, *options) ==> (result matches Err(e) && e.spec_kind()
            == TwitchErrorKind::InvalidResponse),
{
    let text = chars_of(url.as_str());
    if utf8_length(text.as_slice()) > options.max_playback_url_bytes {
        return Err(invalid_response());
    }
    let uri = match parse_uri(text.as_slice()) {
        Some(u) => u,
        None => {
            return Err(invalid_response());
        },
    };
    let authority = match &uri.authority {
        Some(a) => a,
        None => {
            return Err(invalid_response());
        },
    };
    let valid = match options.playback_scheme {
        TwitchPlaybackScheme::Https => {
            opt_seq_is(&uri.scheme, "https") && match &uri.host {
                Some(h) => is_text(h.as_slice(), "ttvnw.net") || crate::bandcamp::ends_with(
                    h.as_slice(),
                    chars_of(".ttvnw.net").as_slice(),
                ),
                None => false,
            }
        },
        TwitchPlaybackScheme::HttpForPrivateNetworks => {
            opt_seq_is(&uri.scheme, "http") || opt_seq_is(&uri.scheme, "https")
        },
    };
    if !valid || contains(authority.as_slice(), '@') || contains(text.as_slice(), '#') {
        return Err(invalid_response());
    }
    Ok(TwitchPlaybackUrl { url })
}

/// Whether a playback token parses as JSON with an unsigned integer `expires` member.
pub uninterp spec fn token_expiry_present(token: Seq<char>) -> bool;

/// Calls `serde_json::from_str::<serde_json::Value>` on the token text and reads its `expires`
/// member with `Value::get` and `Value::as_u64`. JSON syntax takes pages to state, so the answer
/// is named [`token_expiry_present`], a function of the text alone.
#[verifier::external_body]
fn token_has_expiry(token: &str) -> (present: bool)
    ensures
        present == token_expiry_present(token@),
{
    serde_json::from_str::<serde_json::Value>(token)
        .ok()
        .and_then(|value| value.get("expires").and_then(serde_json::Value::as_u64))
        .is_some()
}

/// The `streamPlaybackAccessToken` part of a token answer: whether the answer lists errors,
/// whether the token is present and not null, and its `value` and `signature` when strings.
#[derive(Clone, Debug, PartialEq, Eq)]
pub struct TwitchTokenData {
    pub has_errors: bool,
    pub token_present: bool,
    pub value: Option<String>,
    pub signature: Option<String>,
}

/// The Usher URL of a channel for a signed token.
pub open spec fn usher_url(base: Seq<char>, channel: Seq<char>, value: Seq<char>, signature: Seq<char>) -> Seq<
    char,
> {
    trim_end_slashes(base) + "/"@ + channel + ".m3u8?token="@ + form_encode(encode_utf8(value))
        + "&sig="@ + form_encode(encode_utf8(signature))
        + "&allow_source=true&allow_spectre=true&allow_audio_only=true&player_backend=html5&expgroup=regular"@
}

/// What a token answer gives: an error answer is invalid, a missing token means offline, and a
/// bounded value and signature with an expiry make the signed Usher URL, which must be valid.
pub open spec fn spec_playback_token(
    token: TwitchTokenData,
    channel: Seq<char>,
    options: TwitchSourceOptions,
) -> Result<Seq<char>, TwitchErrorKind> {
    if token.has_errors {
        Err(TwitchErrorKind::InvalidResponse)
    } else if !token.token_present {
        Err(TwitchErrorKind::Offline)
    } else {
        match (
            spec_bounded_string(opt_text(token.value), options.max_playback_token_bytes as int),
            spec_bounded_string(opt_text(token.signature), options.max_signature_bytes as int),
        ) {
            (Some(value), Some(signature)) => if !token_expiry_present(value) {
                Err(TwitchErrorKind::InvalidResponse)
            } else {
                let url = usher_url(options.usher_base_url@, channel, value, signature);
                if spec_valid_playback_url(url, options) {
                    Ok(url)
                } else {
                    Err(TwitchErrorKind::InvalidResponse)
                }
            },
            _ => Err(TwitchErrorKind::InvalidResponse),
        }
    }
}

/// Builds the signed Usher URL from a playback token answer.
pub fn parse_playback_token(token: &TwitchTokenData, channel: &str, options: &TwitchSourceOptions) -> (result:
    Result<TwitchPlaybackUrl, TwitchError>)
    ensures
        match spec_playback_token(*token, channel@, *options) {
            Ok(url) => result matches Ok(p) && p.spec_url() == url,
            Err(kind) => result matches Err(e) && e.spec_kind() == kind,
        },
{
    if token.has_errors {
        return Err(invalid_response());
    }
    if !token.token_present {
        return Err(TwitchError::new(TwitchErrorKind::Offline));
    }
    let value = bounded(&token.value, options.max_playback_token_bytes);
    let signature = bounded(&token.signature, options.max_signature_bytes);
    let (value, signature) = match (value, signature) {
        (Ok(v), Ok(s)) => (v, s),
        _ => {
            return Err(invalid_response());
        },
    };
    if !token_has_expiry(value.as_str()) {
        return Err(invalid_response());
    }
    let base = crate::soundcloud::trim_end_slash_chars(
        chars_of(options.usher_base_url.as_str()).as_slice(),
    );
    let mut url = concat_chars(base.as_slice(), chars_of("/").as_slice());
    url = concat_chars(url.as_slice(), chars_of(channel).as_slice());
    url = concat_chars(url.as_slice(), chars_of(".m3u8?token=").as_slice());
    url = concat_chars(
        url.as_slice(),
        chars_of(crate::soundcloud::form_url_encode(value.as_str()).as_str()).as_slice(),
    );
    url = concat_chars(url.as_slice(), chars_of("&sig=").as_slice());
    url = concat_chars(
        url.as_slice(),
        chars_of(crate::soundcloud::form_url_encode(signature.as_str()).as_str()).as_slice(),
    );
    url = concat_chars(
        url.as_slice(),
        chars_of(
            "&allow_source=true&allow_spectre=true&allow_audio_only=true&player_backend=html5&expgroup=regular",
        ).as_slice(),
    );
    validate_playback_url(string_from_chars(url.as_slice()), options)
}

// ---------------------------------------------------------------------------------------------
// Live playback
// ---------------------------------------------------------------------------------------------

/// The outcome of one live playback poll.
#[derive(Clone, Copy, Debug, PartialEq, Eq)]
pub enum TwitchLivePlaybackPoll {
    Frame,
    WaitUntil(Duration),
    Ended,
    Exhausted,
}

/// The position of the first variant with the lowest bandwidth, a variant without a bandwidth
/// counting as the highest.
pub open spec fn lowest_variant(variants: Seq<VariantView>, best: int, i: int) -> int
    decreases variants.len() - i,
{
    if i < 0 || i >= variants.len() {
        best
    } else {
        let key = match variants[i].bandwidth {
            Some(b) => b as int,
            None => u64::MAX as int,
        };
        let best_key = match variants[best].bandwidth {
            Some(b) => b as int,
            None => u64::MAX as int,
        };
        lowest_variant(variants, if key < best_key { i } else { best }, i + 1)
    }
}

/// The media playlist URL of the lowest-bandwidth variant of a master playlist.
pub fn select_lowest_variant(master: &HlsMasterPlaylist) -> (uri: Option<String>)
    ensures
        master.variants@.len() == 0 ==> uri is None,
        master.variants@.len() > 0 ==> (uri matches Some(u) && u@ == crate::hls::variants_view(
            master.variants@,
        )[lowest_variant(crate::hls::variants_view(master.variants@), 0, 1)].uri),
{
    let n = master.variants.len();
    if n == 0 {
        return None;
    }
    let ghost vs = crate::hls::variants_view(master.variants@);
    let mut best: usize = 0;
    let mut i: usize = 1;
    while i < n
        invariant
            1 <= i <= n == master.variants@.len(),
            best < i,
            vs == crate::hls::variants_view(master.variants@),
            lowest_variant(vs, 0, 1) == lowest_variant(vs, best as int, i as int),
        decreases n - i,
    {
        let key = match master.variants[i].bandwidth {
            Some(b) => b,
            None => u64::MAX,
        };
        let best_key = match master.variants[best].bandwidth {
            Some(b) => b,
            None => u64::MAX,
        };
        proof {
            assert(vs[i as int].bandwidth == master.variants@[i as int].bandwidth);
            assert(vs[best as int].bandwidth == master.variants@[best as int].bandwidth);
        }
        if key < best_key {
            best = i;
        }
        i = i + 1;
    }
    proof {
        assert(vs[best as int].uri == master.variants@[best as int].uri@);
    }
    Some(copy_text(master.variants[best].uri.as_str()))
}

// ---------------------------------------------------------------------------------------------
// Manager state
// ---------------------------------------------------------------------------------------------

/// The policy, credentials and lifecycle state of a Twitch source.
pub struct TwitchSourceManager {
    options: TwitchSourceOptions,
    authentication: TwitchAuthentication,
    shutdown: bool,
}

impl TwitchSourceManager {
    pub closed spec fn spec_options(&self) -> TwitchSourceOptions {
        self.options
    }

    pub closed spec fn spec_authentication(&self) -> TwitchAuthentication {
        self.authentication
    }

    pub closed spec fn is_shut_down(&self) -> bool {
        self.shutdown
    }

    /// Creates a manager after validating HTTP, credentials, parser and signed-URL limits; the
    /// HTTP policy is validated against the transport's redirect and retry ceilings.
    pub fn new(
        options: TwitchSourceOptions,
        authentication: TwitchAuthentication,
        redirect_ceiling: u32,
        retry_ceiling: u32,
    ) -> (result: Result<Self, TwitchError>)
        ensures
            options.is_valid() && options.http.is_valid(redirect_ceiling, retry_ceiling) ==> (
            result matches Ok(m) && m.spec_options() == options && m.spec_authentication()
                == authentication && !m.is_shut_down()),
            !(options.is_valid() && options.http.is_valid(redirect_ceiling, retry_ceiling)) ==> (
            result matches Err(e) && e.spec_kind() == TwitchErrorKind::InvalidOptions),
    {
        options.validate()?;
        if options.http.validate(redirect_ceiling, retry_ceiling).is_err() {
            return Err(TwitchError::new(TwitchErrorKind::InvalidOptions));
        }
        Ok(TwitchSourceManager { options, authentication, shutdown: false })
    }

    pub fn source_name(&self) -> (name: &'static str)
        ensures
            name == "twitch",
    {
        "twitch"
    }

    pub fn ensure_active(&self, cancelled: bool) -> (result: Result<(), TwitchError>)
        ensures
            self.is_shut_down() ==> (result matches Err(e) && e.spec_kind()
                == TwitchErrorKind::Shutdown),
            !self.is_shut_down() && cancelled ==> (result matches Err(e) && e.spec_kind()
                == TwitchErrorKind::Cancelled),
            !self.is_shut_down() && !cancelled ==> result is Ok,
    {
        if self.shutdown {
            return Err(TwitchError::new(TwitchErrorKind::Shutdown));
        }
        if cancelled {
            return Err(TwitchError::new(TwitchErrorKind::Cancelled));
        }
        Ok(())
    }

    /// Playback is resolved only for an active manager and a valid channel login.
    pub fn check_playback_channel(&self, channel: &str, cancelled: bool) -> (result: Result<
        (),
        TwitchError,
    >)
        ensures
            self.is_shut_down() ==> (result matches Err(e) && e.spec_kind()
                == TwitchErrorKind::Shutdown),
            !self.is_shut_down() && cancelled ==> (result matches Err(e) && e.spec_kind()
                == TwitchErrorKind::Cancelled),
            !self.is_shut_down() && !cancelled && !spec_valid_channel(channel@) ==> (result matches Err(
                e,
            ) && e.spec_kind() == TwitchErrorKind::UnsupportedRoute),
            !self.is_shut_down() && !cancelled && spec_valid_channel(channel@) ==> result is Ok,
    {
        self.ensure_active(cancelled)?;
        if !valid_channel(chars_of(channel).as_slice()) {
            return Err(TwitchError::new(TwitchErrorKind::UnsupportedRoute));
        }
        Ok(())
    }

    /// Rebuilds a stored live track: its identifier routes to a channel, the payload is empty,
    /// and it is a stream.
    pub fn decode_with_info(&self, info: &crate::track::TrackInfo, payload: &[u8]) -> (result:
        Result<TwitchSourceTrack, crate::source::SourceRegistryError>)
        ensures
            match spec_route_twitch(info.identifier@, self.spec_options()) {
                Some(channel) => if payload@.len() == 0 && info.is_stream {
                    result matches Ok(t) && t.info@ == info@ && t.channel@ == channel
                } else {
                    result == Err::<TwitchSourceTrack, crate::source::SourceRegistryError>(
                        crate::source::SourceRegistryError::SourceFailure,
                    )
                },
                None => result == Err::<TwitchSourceTrack, crate::source::SourceRegistryError>(
                    crate::source::SourceRegistryError::SourceFailure,
                ),
            },
    {
        let route = match route_twitch_identifier(info.identifier.as_str(), &self.options) {
            Some(r) => r,
            None => {
                return Err(crate::source::SourceRegistryError::SourceFailure);
            },
        };
        if payload.len() != 0 || !info.is_stream {
            return Err(crate::source::SourceRegistryError::SourceFailure);
        }
        Ok(TwitchSourceTrack { info: info.duplicate(), channel: route.channel })
    }

    /// Stops the manager; every later load fails as shut down.
    pub fn shutdown(&mut self)
        ensures
            final(self).is_shut_down(),
            final(self).spec_options() == old(self).spec_options(),
            final(self).spec_authentication() == old(self).spec_authentication(),
    {
        self.shutdown = true;
    }
}

} // verus!
