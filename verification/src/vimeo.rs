use vstd::prelude::*;

use crate::bandcamp::{has_suffix, spec_bounded_string, trim_slashes};
use crate::duration::Duration;
use crate::http_policy::HttpNetworkAccess;
use crate::playlist::{contains_char, seq_equal};
use crate::remote_http::{RemoteHttpError, RemoteHttpErrorKind, RemoteHttpOptions};
use crate::route_util::{ascii_lowercase, contains, opt_seq_is, to_ascii_lowercase, utf8_len, utf8_length};
use crate::soundcloud::spec_bounded_optional;
use crate::text::{chars_of, copy_range, has_prefix, split_once, split_once_chars, starts_with, string_from_chars};
use crate::track::{copy_text, opt_text};
use crate::twitch::spec_valid_base_url;
use crate::uri::parse_uri;

verus! {

pub const MAX_ACCESS_TOKEN_BYTES: usize = 16 * 1024;

pub const MAX_CONFIGURED_IDENTIFIER_BYTES: usize = 64 * 1024;

pub const MAX_CONFIGURED_METADATA_STRING_BYTES: usize = 1024 * 1024;

pub const MAX_CONFIGURED_RESPONSE_BYTES: u64 = 64 * 1024 * 1024;

pub const MAX_CONFIGURED_PLAYBACK_CANDIDATES: usize = 10_000;

pub const MAX_CONFIGURED_PLAYBACK_URL_BYTES: usize = 1024 * 1024;

pub const MAX_UNLISTED_HASH_BYTES: usize = 128;

// ---------------------------------------------------------------------------------------------
// Errors
// ---------------------------------------------------------------------------------------------

#[derive(Clone, Copy, Debug, PartialEq, Eq, Structural)]
pub enum VimeoErrorKind {
    InvalidOptions,
    InvalidAuthentication,
    Cancelled,
    Shutdown,
    Network,
    RateLimited,
    AuthenticationRequired,
    Unavailable,
    InvalidResponse,
    UnsupportedRoute,
}

#[derive(Clone, Copy, Debug, PartialEq, Eq, Structural)]
pub struct VimeoError {
    kind: VimeoErrorKind,
}

impl VimeoError {
    pub closed spec fn spec_kind(self) -> VimeoErrorKind {
        self.kind
    }

    pub fn new(kind: VimeoErrorKind) -> (error: Self)
        ensures
            error.spec_kind() == kind,
    {
        VimeoError { kind }
    }

    pub fn kind(self) -> (kind: VimeoErrorKind)
        ensures
            kind == self.spec_kind(),
    {
        self.kind
    }

    pub fn message(self) -> (text: &'static str)
        ensures
            text == (match self.spec_kind() {
                VimeoErrorKind::InvalidOptions => "invalid Vimeo source policy",
                VimeoErrorKind::InvalidAuthentication => "invalid Vimeo authentication policy",
                VimeoErrorKind::Cancelled => "Vimeo load cancelled",
                VimeoErrorKind::Shutdown => "Vimeo source is shut down",
                VimeoErrorKind::Network => "Vimeo request failed",
                VimeoErrorKind::RateLimited => "Vimeo rate limit reached",
                VimeoErrorKind::AuthenticationRequired => "Vimeo rejected authentication",
                VimeoErrorKind::Unavailable => "Vimeo content is unavailable",
                VimeoErrorKind::InvalidResponse => "Vimeo returned an invalid response",
                VimeoErrorKind::UnsupportedRoute => "Vimeo route is not implemented",
            }),
    {
        match self.kind {
            VimeoErrorKind::InvalidOptions => "invalid Vimeo source policy",
            VimeoErrorKind::InvalidAuthentication => "invalid Vimeo authentication policy",
            VimeoErrorKind::Cancelled => "Vimeo load cancelled",
            VimeoErrorKind::Shutdown => "Vimeo source is shut down",
            VimeoErrorKind::Network => "Vimeo request failed",
            VimeoErrorKind::RateLimited => "Vimeo rate limit reached",
            VimeoErrorKind::AuthenticationRequired => "Vimeo rejected authentication",
            VimeoErrorKind::Unavailable => "Vimeo content is unavailable",
            VimeoErrorKind::InvalidResponse => "Vimeo returned an invalid response",
            VimeoErrorKind::UnsupportedRoute => "Vimeo route is not implemented",
        }
    }
}

pub fn invalid_response() -> (error: VimeoError)
    ensures
        error.spec_kind() == VimeoErrorKind::InvalidResponse,
{
    VimeoError::new(VimeoErrorKind::InvalidResponse)
}

#[derive(Clone, Copy, Debug, PartialEq, Eq, Structural)]
pub enum VimeoPlaybackErrorKind {
    Source(VimeoErrorKind),
    InvalidOptions,
    Cancelled,
    Network,
    InvalidMedia,
    IncompatibleFormat,
}

#[derive(Clone, Copy, Debug, PartialEq, Eq, Structural)]
pub struct VimeoPlaybackError {
    kind: VimeoPlaybackErrorKind,
}

impl VimeoPlaybackError {
    pub closed spec fn spec_kind(self) -> VimeoPlaybackErrorKind {
        self.kind
    }

    pub fn new(kind: VimeoPlaybackErrorKind) -> (error: Self)
        ensures
            error.spec_kind() == kind,
    {
        VimeoPlaybackError { kind }
    }

    pub fn kind(self) -> (kind: VimeoPlaybackErrorKind)
        ensures
            kind == self.spec_kind(),
    {
        self.kind
    }

    pub fn message(self) -> (text: &'static str)
        ensures
            text == (match self.spec_kind() {
                VimeoPlaybackErrorKind::Source(_) => "Vimeo playback discovery failed",
                VimeoPlaybackErrorKind::InvalidOptions => "invalid Vimeo media policy",
                VimeoPlaybackErrorKind::Cancelled => "Vimeo playback cancelled",
                VimeoPlaybackErrorKind::Network => "Vimeo media request failed",
                VimeoPlaybackErrorKind::InvalidMedia => "Vimeo returned invalid media",
                VimeoPlaybackErrorKind::IncompatibleFormat => {
                    "Vimeo playback is not a supported progressive MP4"
                },
            }),
    {
        match self.kind {
            VimeoPlaybackErrorKind::Source(_) => "Vimeo playback discovery failed",
            VimeoPlaybackErrorKind::InvalidOptions => "invalid Vimeo media policy",
            VimeoPlaybackErrorKind::Cancelled => "Vimeo playback cancelled",
            VimeoPlaybackErrorKind::Network => "Vimeo media request failed",
            VimeoPlaybackErrorKind::InvalidMedia => "Vimeo returned invalid media",
            VimeoPlaybackErrorKind::IncompatibleFormat => {
                "Vimeo playback is not a supported progressive MP4"
            },
        }
    }
}

/// Remote failures of the player-config and API requests.
pub open spec fn spec_map_remote_kind(kind: RemoteHttpErrorKind) -> VimeoErrorKind {
    match kind {
        RemoteHttpErrorKind::Cancelled => VimeoErrorKind::Cancelled,
        RemoteHttpErrorKind::RateLimited => VimeoErrorKind::RateLimited,
        RemoteHttpErrorKind::Unauthorized | RemoteHttpErrorKind::Forbidden => {
            VimeoErrorKind::AuthenticationRequired
        },
        RemoteHttpErrorKind::NotFound => VimeoErrorKind::Unavailable,
        _ => VimeoErrorKind::Network,
    }
}

pub fn map_remote_error(error: RemoteHttpError) -> (mapped: VimeoError)
    ensures
        mapped.spec_kind() == spec_map_remote_kind(error@.kind),
{
    VimeoError::new(
        match error.kind() {
            RemoteHttpErrorKind::Cancelled => VimeoErrorKind::Cancelled,
            RemoteHttpErrorKind::RateLimited => VimeoErrorKind::RateLimited,
            RemoteHttpErrorKind::Unauthorized | RemoteHttpErrorKind::Forbidden => {
                VimeoErrorKind::AuthenticationRequired
            },
            RemoteHttpErrorKind::NotFound => VimeoErrorKind::Unavailable,
            _ => VimeoErrorKind::Network,
        },
    )
}

pub fn map_playback_source_error(error: VimeoError) -> (mapped: VimeoPlaybackError)
    ensures
        mapped.spec_kind() == VimeoPlaybackErrorKind::Source(error.spec_kind()),
{
    VimeoPlaybackError::new(VimeoPlaybackErrorKind::Source(error.kind()))
}

/// How a media pipeline failure is reported during playback: cancellation (an interrupted read
/// included) stays cancellation, option errors are option errors, other I/O failures are network
/// failures, and every decoding failure is invalid media.
pub fn map_playback_media_error(error: crate::media::MediaError) -> (mapped: VimeoPlaybackError)
    ensures
        match error {
            crate::media::MediaError::Cancelled => mapped.spec_kind()
                == VimeoPlaybackErrorKind::Cancelled,
            crate::media::MediaError::InvalidLimits(_)
            | crate::media::MediaError::InvalidHttpOptions(_) => mapped.spec_kind()
                == VimeoPlaybackErrorKind::InvalidOptions,
            crate::media::MediaError::Io(_) => mapped.spec_kind()
                == VimeoPlaybackErrorKind::Cancelled || mapped.spec_kind()
                == VimeoPlaybackErrorKind::Network,
            _ => mapped.spec_kind() == VimeoPlaybackErrorKind::InvalidMedia,
        },
{
    let kind = match &error {
        crate::media::MediaError::Cancelled => VimeoPlaybackErrorKind::Cancelled,
        crate::media::MediaError::InvalidLimits(_)
        | crate::media::MediaError::InvalidHttpOptions(_) => VimeoPlaybackErrorKind::InvalidOptions,
        crate::media::MediaError::Io(e) => {
            if crate::niconico::io_error_interrupted(e) {
                VimeoPlaybackErrorKind::Cancelled
            } else {
                VimeoPlaybackErrorKind::Network
            }
        },
        _ => VimeoPlaybackErrorKind::InvalidMedia,
    };
    VimeoPlaybackError::new(kind)
}

// ---------------------------------------------------------------------------------------------
// Authentication and options
// ---------------------------------------------------------------------------------------------

/// A validated caller-provided API access token.
#[derive(Clone, PartialEq, Eq)]
pub struct VimeoAuthentication {
    access_token: String,
}

impl VimeoAuthentication {
    pub closed spec fn spec_access_token(&self) -> Seq<char> {
        self.access_token@
    }

    /// Accepts 1 to 16 KiB of visible ASCII.
    pub fn new(access_token: String) -> (result: Result<Self, VimeoError>)
        ensures
            crate::soundcloud::valid_credential(access_token@, MAX_ACCESS_TOKEN_BYTES as int) ==> (
            result matches Ok(a) && a.spec_access_token() == access_token@),
            !crate::soundcloud::valid_credential(access_token@, MAX_ACCESS_TOKEN_BYTES as int)
                ==> (result matches Err(e) && e.spec_kind()
                == VimeoErrorKind::InvalidAuthentication),
    {
        if !crate::soundcloud::is_valid_credential(access_token.as_str(), MAX_ACCESS_TOKEN_BYTES) {
            return Err(VimeoError::new(VimeoErrorKind::InvalidAuthentication));
        }
        Ok(VimeoAuthentication { access_token })
    }

    pub fn access_token(&self) -> (token: &str)
        ensures
            token@ == self.spec_access_token(),
    {
        self.access_token.as_str()
    }
}

/// Scheme policy for expiring media URLs.
#[derive(Clone, Copy, Debug, PartialEq, Eq, Structural)]
pub enum VimeoPlaybackScheme {
    Https,
    /// Permit HTTP only alongside the explicit private-network source policy, for trusted
    /// loopback replay; never for public service traffic.
    HttpForPrivateNetworks,
}

/// Bounded routing, response and playback-discovery policy.
#[derive(Clone, Debug, PartialEq, Eq)]
pub struct VimeoSourceOptions {
    pub http: RemoteHttpOptions,
    pub player_base_url: String,
    pub api_base_url: String,
    pub max_identifier_bytes: usize,
    pub max_metadata_string_bytes: usize,
    pub max_playback_candidates: usize,
    pub max_playback_url_bytes: usize,
    pub max_response_bytes: u64,
    pub max_track_duration: Duration,
    pub playback_scheme: VimeoPlaybackScheme,
}

impl VimeoSourceOptions {
    pub fn default_options() -> (options: Self)
        ensures
            crate::remote_http::is_default_remote_options(options.http),
            options.player_base_url@ == "https://player.vimeo.com/video"@,
            options.api_base_url@ == "https://api.vimeo.com"@,
            options.max_identifier_bytes == 8 * 1024,
            options.max_metadata_string_bytes == 64 * 1024,
            options.max_playback_candidates == 128,
            options.max_playback_url_bytes == 64 * 1024,
            options.max_response_bytes == 4 * 1024 * 1024,
            options.max_track_duration@ == 24 * 3600 * 1_000_000_000,
            options.playback_scheme == VimeoPlaybackScheme::Https,
    {
        VimeoSourceOptions {
            http: RemoteHttpOptions::default_options(),
            player_base_url: copy_text("https://player.vimeo.com/video"),
            api_base_url: copy_text("https://api.vimeo.com"),
            max_identifier_bytes: 8 * 1024,
            max_metadata_string_bytes: 64 * 1024,
            max_playback_candidates: 128,
            max_playback_url_bytes: 64 * 1024,
            max_response_bytes: 4 * 1024 * 1024,
            max_track_duration: Duration::from_hours(24),
            playback_scheme: VimeoPlaybackScheme::Https,
        }
    }

    pub open spec fn is_valid(&self) -> bool {
        &&& 0 < self.max_identifier_bytes <= MAX_CONFIGURED_IDENTIFIER_BYTES
        &&& 0 < self.max_metadata_string_bytes <= MAX_CONFIGURED_METADATA_STRING_BYTES
        &&& 0 < self.max_playback_candidates <= MAX_CONFIGURED_PLAYBACK_CANDIDATES
        &&& 0 < self.max_playback_url_bytes <= MAX_CONFIGURED_PLAYBACK_URL_BYTES
        &&& 0 < self.max_response_bytes <= MAX_CONFIGURED_RESPONSE_BYTES
        &&& self.max_response_bytes <= self.http.max_response_bytes
        &&& 0 < self.max_track_duration@ <= crate::bandcamp::max_configured_track_duration()
        &&& !(self.playback_scheme == VimeoPlaybackScheme::HttpForPrivateNetworks
            && self.http.network_access != HttpNetworkAccess::AllowPrivateNetworks)
        &&& spec_valid_base_url(self.player_base_url@, self.http)
        &&& spec_valid_base_url(self.api_base_url@, self.http)
    }

    pub fn validate(&self) -> (result: Result<(), VimeoError>)
        ensures
            self.is_valid() ==> result is Ok,
            !self.is_valid() ==> (result matches Err(e) && e.spec_kind()
                == VimeoErrorKind::InvalidOptions),
    {
        let ceiling = Duration::from_hours(31 * 24);
        if self.max_identifier_bytes == 0 || self.max_identifier_bytes
            > MAX_CONFIGURED_IDENTIFIER_BYTES || self.max_metadata_string_bytes == 0
            || self.max_metadata_string_bytes > MAX_CONFIGURED_METADATA_STRING_BYTES
            || self.max_playback_candidates == 0 || self.max_playback_candidates
            > MAX_CONFIGURED_PLAYBACK_CANDIDATES || self.max_playback_url_bytes == 0
            || self.max_playback_url_bytes > MAX_CONFIGURED_PLAYBACK_URL_BYTES
            || self.max_response_bytes == 0 || self.max_response_bytes
            > MAX_CONFIGURED_RESPONSE_BYTES || self.max_response_bytes
            > self.http.max_response_bytes || self.max_track_duration.is_zero()
            || ceiling.less_than(&self.max_track_duration) || (self.playback_scheme
            == VimeoPlaybackScheme::HttpForPrivateNetworks && self.http.network_access
            != HttpNetworkAccess::AllowPrivateNetworks) {
            return Err(VimeoError::new(VimeoErrorKind::InvalidOptions));
        }
        if crate::twitch::validate_base_url(self.player_base_url.as_str(), &self.http).is_err()
            || crate::twitch::validate_base_url(self.api_base_url.as_str(), &self.http).is_err() {
            return Err(VimeoError::new(VimeoErrorKind::InvalidOptions));
        }
        Ok(())
    }
}

// ---------------------------------------------------------------------------------------------
// Routing
// ---------------------------------------------------------------------------------------------

/// A public video, with the hash of an unlisted one.
#[derive(Clone, Debug, PartialEq, Eq)]
pub struct VimeoRoute {
    pub video_id: String,
    pub unlisted_hash: Option<String>,
}

impl VimeoRoute {
    /// The video page, with the unlisted hash as a second path segment.
    pub fn canonical_url(&self) -> (url: String)
        ensures
            url@ == match self.unlisted_hash {
                Some(h) => "https://vimeo.com/"@ + self.video_id@ + "/"@ + h@,
                None => "https://vimeo.com/"@ + self.video_id@,
            },
    {
        let mut out = concat_chars(
            chars_of("https://vimeo.com/").as_slice(),
            chars_of(self.video_id.as_str()).as_slice(),
        );
        match &self.unlisted_hash {
            Some(h) => {
                out = concat_chars(out.as_slice(), chars_of("/").as_slice());
                out = concat_chars(out.as_slice(), chars_of(h.as_str()).as_slice());
            },
            None => {},
        }
        string_from_chars(out.as_slice())
    }
}

fn concat_chars(a: &[char], b: &[char]) -> (result: Vec<char>)
    ensures
        result@ == a@ + b@,
{
    let mut out = copy_range(a, 0, a.len());
    let mut tail = copy_range(b, 0, b.len());
    let ghost x = out@;
    let ghost y = tail@;
    out.append(&mut tail);
    proof {
        assert(a@.subrange(0, a@.len() as int) =~= a@);
        assert(b@.subrange(0, b@.len() as int) =~= b@);
        assert(out@ =~= x + y);
    }
    out
}

/// A video identifier: 1 to 32 ASCII digits.
pub open spec fn spec_valid_video_id(value: Seq<char>) -> bool {
    value.len() > 0 && value.len() <= 32 && crate::text::all_digits(value)
}

pub fn valid_video_id(value: &[char]) -> (valid: bool)
    ensures
        valid == spec_valid_video_id(value@),
{
    if value.len() == 0 || value.len() > 32 {
        return false;
    }
    let mut i: usize = 0;
    while i < value.len()
        invariant
            i <= value@.len(),
            forall|j: int| 0 <= j < i ==> crate::text::is_digit(#[trigger] value@[j]),
        decreases value@.len() - i,
    {
        if !('0' <= value[i] && value[i] <= '9') {
            return false;
        }
        i = i + 1;
    }
    true
}

pub open spec fn alnum(c: char) -> bool {
    ('a' <= c && c <= 'z') || ('A' <= c && c <= 'Z') || ('0' <= c && c <= '9')
}

/// An unlisted-video hash: 1 to 128 ASCII letters or digits.
pub open spec fn spec_valid_unlisted_hash(value: Seq<char>) -> bool {
    &&& value.len() > 0
    &&& value.len() <= MAX_UNLISTED_HASH_BYTES
    &&& forall|i: int| 0 <= i < value.len() ==> alnum(#[trigger] value[i])
}

pub fn valid_unlisted_hash(value: &[char]) -> (valid: bool)
    ensures
        valid == spec_valid_unlisted_hash(value@),
{
    if value.len() == 0 || value.len() > MAX_UNLISTED_HASH_BYTES {
        return false;
    }
    let mut i: usize = 0;
    while i < value.len()
        invariant
            i <= value@.len(),
            forall|j: int| 0 <= j < i ==> alnum(#[trigger] value@[j]),
        decreases value@.len() - i,
    {
        let c = value[i];
        if !(('a' <= c && c <= 'z') || ('A' <= c && c <= 'Z') || ('0' <= c && c <= '9')) {
            return false;
        }
        i = i + 1;
    }
    true
}

/// The decoded name-value pairs of an `application/x-www-form-urlencoded` query.
pub uninterp spec fn form_pairs(query: Seq<char>) -> Seq<(Seq<char>, Seq<char>)>;

/// Calls `form_urlencoded::parse` on the query's bytes and collects its decoded pairs. The
/// decoding (`+` as space, percent escapes, lossy UTF-8) takes pages to state, so the pairs are
/// named [`form_pairs`], a function of the query alone.
#[verifier::external_body]
fn parse_form_pairs(query: &str) -> (pairs: Vec<(String, String)>)
    ensures
        pairs@.map_values(|p: (String, String)| (p.0@, p.1@)) == form_pairs(query@),
{
    form_urlencoded::parse(query.as_bytes()).map(|(name, value)| (name.into_owned(), value.into_owned())).collect()
}

/// The value of the first pair named `name`.
pub open spec fn first_value(pairs: Seq<(Seq<char>, Seq<char>)>, name: Seq<char>) -> Option<
    Seq<char>,
>
    decreases pairs.len(),
{
    if pairs.len() == 0 {
        None
    } else if pairs[0].0 == name {
        Some(pairs[0].1)
    } else {
        first_value(pairs.drop_first(), name)
    }
}

fn query_hash(query: &str) -> (hash: Option<String>)
    ensures
        opt_text(hash) == first_value(form_pairs(query@), "h"@),
{
    let pairs = parse_form_pairs(query);
    let ghost all = pairs@.map_values(|p: (String, String)| (p.0@, p.1@));
    let name = chars_of("h");
    let mut i: usize = 0;
    proof {
        assert(all.skip(0) =~= all);
    }
    while i < pairs.len()
        invariant
            i <= pairs@.len(),
            all == pairs@.map_values(|p: (String, String)| (p.0@, p.1@)),
            all == form_pairs(query@),
            name@ == "h"@,
            first_value(all, "h"@) == first_value(all.skip(i as int), "h"@),
        decreases pairs@.len() - i,
    {
        proof {
            assert(all.skip(i as int)[0] == all[i as int]);
            assert(all.skip(i as int).drop_first() =~= all.skip(i + 1));
        }
        if seq_equal(chars_of(pairs[i].0.as_str()).as_slice(), name.as_slice()) {
            return Some(copy_text(pairs[i].1.as_str()));
        }
        i = i + 1;
    }
    None
}

/// The video identifier and path hash named by the path of a Vimeo URL on `host`.
pub open spec fn path_parts(host: Seq<char>, path: Seq<char>) -> Option<(Seq<char>, Option<Seq<char>>)> {
    let trimmed = trim_slashes(path);
    if host == "vimeo.com"@ || host == "www.vimeo.com"@ {
        match split_once(trimmed, '/') {
            None => Some((trimmed, None)),
            Some((first, second)) => if contains_char(second, '/') {
                None
            } else {
                Some((first, Some(second)))
            },
        }
    } else if host == "player.vimeo.com"@ {
        match split_once(trimmed, '/') {
            None => None,
            Some((first, second)) => if contains_char(second, '/') || first != "video"@ {
                None
            } else {
                Some((second, None))
            },
        }
    } else {
        None
    }
}

/// Accepts `vimeo.com/<id>[/<hash>]` and `player.vimeo.com/video/<id>` (scheme optional, host
/// case-insensitive); the hash comes from the path or else from the `h` query parameter.
pub open spec fn spec_route_vimeo(identifier: Seq<char>, options: VimeoSourceOptions) -> Option<
    (Seq<char>, Option<Seq<char>>),
> {
    if identifier.len() == 0 || utf8_len(identifier) > options.max_identifier_bytes
        || contains_char(identifier, '#') {
        None
    } else {
        let normalized = if has_prefix(identifier, "http://"@) || has_prefix(
            identifier,
            "https://"@,
        ) {
            identifier
        } else {
            "https://"@ + identifier
        };
        match crate::uri::parsed_uri(normalized) {
            None => None,
            Some(u) => if !(u.scheme == Some("http"@) || u.scheme == Some("https"@))
                || u.authority is None || contains_char(u.authority->0, '@') || u.host
                != u.authority {
                None
            } else {
                match path_parts(ascii_lowercase(u.host->0), u.path) {
                    None => None,
                    Some((video_id, path_hash)) => if !spec_valid_video_id(video_id) {
                        None
                    } else {
                        let hash = match path_hash {
                            Some(h) => Some(h),
                            None => match u.query {
                                Some(q) => first_value(form_pairs(q), "h"@),
                                None => None,
                            },
                        };
                        if hash matches Some(h) && !spec_valid_unlisted_hash(h) {
                            None
                        } else {
                            Some((video_id, hash))
                        }
                    },
                }
            },
        }
    }
}

fn is_text(s: &[char], literal: &str) -> (result: bool)
    ensures
        result == (s@ == literal@),
{
    seq_equal(s, chars_of(literal).as_slice())
}

fn split_path(host: &[char], path: &[char]) -> (parts: Option<(Vec<char>, Option<Vec<char>>)>)
    ensures
        match path_parts(host@, path@) {
            Some((id, hash)) => parts matches Some((i, h)) && i@ == id && crate::uri::opt_chars_view(
                h,
            ) == hash,
            None => parts is None,
        },
{
    let trimmed = crate::bandcamp::trim_slash_chars(path);
    if is_text(host, "vimeo.com") || is_text(host, "www.vimeo.com") {
        match split_once_chars(trimmed.as_slice(), '/') {
            None => Some((trimmed, None)),
            Some((first, second)) => if contains(second.as_slice(), '/') {
                None
            } else {
                Some((first, Some(second)))
            },
        }
    } else if is_text(host, "player.vimeo.com") {
        match split_once_chars(trimmed.as_slice(), '/') {
            None => None,
            Some((first, second)) => if contains(second.as_slice(), '/') || !is_text(
                first.as_slice(),
                "video",
            ) {
                None
            } else {
                Some((second, None))
            },
        }
    } else {
        None
    }
}

/// Routes a bounded public identifier without network access.
pub fn route_vimeo_identifier(identifier: &str, options: &VimeoSourceOptions) -> (route: Option<
    VimeoRoute,
>)
    ensures
        match spec_route_vimeo(identifier@, *options) {
            Some((id, hash)) => route matches Some(r) && r.video_id@ == id && opt_text(
                r.unlisted_hash,
            ) == hash,
            None => route is None,
        },
{
    let text = chars_of(identifier);
    if text.len() == 0 || utf8_length(text.as_slice()) > options.max_identifier_bytes || contains(
        text.as_slice(),
        '#',
    ) {
        return None;
    }
    let https = chars_of("https://");
    let normalized = if starts_with(text.as_slice(), chars_of("http://").as_slice()) || starts_with(
        text.as_slice(),
        https.as_slice(),
    ) {
        text
    } else {
        concat_chars(https.as_slice(), text.as_slice())
    };
    let uri = parse_uri(normalized.as_slice())?;
    if !(opt_seq_is(&uri.scheme, "http") || opt_seq_is(&uri.scheme, "https")) {
        return None;
    }
    let authority = match &uri.authority {
        Some(a) => a,
        None => {
            return None;
        },
    };
    if contains(authority.as_slice(), '@') {
        return None;
    }
    let raw_host = match &uri.host {
        Some(h) => h,
        None => {
            return None;
        },
    };
    if !seq_equal(raw_host.as_slice(), authority.as_slice()) {
        return None;
    }
    let host = to_ascii_lowercase(raw_host.as_slice());
    let (video_id, path_hash) = split_path(host.as_slice(), uri.path.as_slice())?;
    if !valid_video_id(video_id.as_slice()) {
        return None;
    }
    let hash = match path_hash {
        Some(h) => Some(string_from_chars(h.as_slice())),
        None => match &uri.query {
            Some(q) => query_hash(string_from_chars(q.as_slice()).as_str()),
            None => None,
        },
    };
    let hash_ok = match &hash {
        Some(h) => valid_unlisted_hash(chars_of(h.as_str()).as_slice()),
        None => true,
    };
    if !hash_ok {
        return None;
    }
    Some(VimeoRoute { video_id: string_from_chars(video_id.as_slice()), unlisted_hash: hash })
}

} // verus!

verus! {

// ---------------------------------------------------------------------------------------------
// Playback URLs
// ---------------------------------------------------------------------------------------------

#[derive(Clone, Copy, Debug, PartialEq, Eq, Structural)]
pub enum VimeoPlaybackKind {
    ProgressiveMp4,
    Hls,
}

/// An expiring media URL with its kind and MIME type. Its diagnostics always redact the value.
#[derive(Clone, PartialEq, Eq)]
pub struct VimeoPlaybackUrl {
    url: String,
    kind: VimeoPlaybackKind,
    mime_type: String,
}

pub struct PlaybackView {
    pub url: Seq<char>,
    pub kind: VimeoPlaybackKind,
    pub mime_type: Seq<char>,
}

impl VimeoPlaybackUrl {
    pub closed spec fn spec_view(&self) -> PlaybackView {
        PlaybackView { url: self.url@, kind: self.kind, mime_type: self.mime_type@ }
    }

    pub fn as_str(&self) -> (url: &str)
        ensures
            url@ == self.spec_view().url,
    {
        self.url.as_str()
    }

    pub fn kind(&self) -> (kind: VimeoPlaybackKind)
        ensures
            kind == self.spec_view().kind,
    {
        self.kind
    }

    pub fn mime_type(&self) -> (mime_type: &str)
        ensures
            mime_type@ == self.spec_view().mime_type,
    {
        self.mime_type.as_str()
    }
}

pub open spec fn opt_playback(p: Option<VimeoPlaybackUrl>) -> Option<PlaybackView> {
    match p {
        Some(u) => Some(u.spec_view()),
        None => None,
    }
}

/// A host that serves Vimeo media: `vimeo.com`, `vimeocdn.com`, `akamaized.net` or their
/// subdomains.
pub open spec fn spec_valid_media_host(host: Seq<char>) -> bool {
    host == "vimeo.com"@ || has_suffix(host, ".vimeo.com"@) || host == "vimeocdn.com"@
        || has_suffix(host, ".vimeocdn.com"@) || host == "akamaized.net"@ || has_suffix(
        host,
        ".akamaized.net"@,
    )
}

pub fn valid_media_host(host: &[char]) -> (valid: bool)
    ensures
        valid == spec_valid_media_host(host@),
{
    is_text(host, "vimeo.com") || crate::bandcamp::ends_with(host, chars_of(".vimeo.com").as_slice())
        || is_text(host, "vimeocdn.com") || crate::bandcamp::ends_with(
        host,
        chars_of(".vimeocdn.com").as_slice(),
    ) || is_text(host, "akamaized.net") || crate::bandcamp::ends_with(
        host,
        chars_of(".akamaized.net").as_slice(),
    )
}

/// A media URL: bounded, parsed with an authority, over HTTPS on a media host (any HTTP(S) URL
/// for private-network replay), without user information or fragment; its MIME type is at most
/// 128 bytes.
pub open spec fn spec_playback_url(
    url: Seq<char>,
    kind: VimeoPlaybackKind,
    mime_type: Seq<char>,
    options: VimeoSourceOptions,
) -> Option<PlaybackView> {
    match spec_bounded_string(Some(url), options.max_playback_url_bytes as int) {
        None => None,
        Some(_) => match crate::uri::parsed_uri(url) {
            None => None,
            Some(u) => match u.authority {
                None => None,
                Some(authority) => {
                    let valid = match options.playback_scheme {
                        VimeoPlaybackScheme::Https => u.scheme == Some("https"@) && u.host is Some
                            && spec_valid_media_host(u.host->0),
                        VimeoPlaybackScheme::HttpForPrivateNetworks => u.scheme == Some("http"@)
                            || u.scheme == Some("https"@),
                    };
                    if !valid || contains_char(authority, '@') || contains_char(url, '#')
                        || spec_bounded_string(Some(mime_type), 128) is None {
                        None
                    } else {
                        Some(PlaybackView { url, kind, mime_type })
                    }
                },
            },
        },
    }
}

pub fn parse_playback_url(
    url: &str,
    kind: VimeoPlaybackKind,
    mime_type: &str,
    options: &VimeoSourceOptions,
) -> (result: Result<VimeoPlaybackUrl, VimeoError>)
    ensures
        match spec_playback_url(url@, kind, mime_type@, *options) {
            Some(p) => result matches Ok(r) && r.spec_view() == p,
            None => result matches Err(e) && e.spec_kind() == VimeoErrorKind::InvalidResponse,
        },
{
    let url = match crate::bandcamp::bounded_string(Some(url), options.max_playback_url_bytes) {
        Ok(u) => u,
        Err(_) => {
            return Err(invalid_response());
        },
    };
    let text = chars_of(url.as_str());
    let uri = match parse_uri(text.as_slice()) {
        Some(u) => u,
        None => {
            return Err(invalid_response());
        },
    };
    let authority = match &uri.authority {
        Some(a) => a,
        None => {
            return Err(invalid_response());
        },
    };
    let valid = match options.playback_scheme {
        VimeoPlaybackScheme::Https => opt_seq_is(&uri.scheme, "https") && match &uri.host {
            Some(h) => valid_media_host(h.as_slice()),
            None => false,
        },
        VimeoPlaybackScheme::HttpForPrivateNetworks => opt_seq_is(&uri.scheme, "http")
            || opt_seq_is(&uri.scheme, "https"),
    };
    if !valid || contains(authority.as_slice(), '@') || contains(text.as_slice(), '#') {
        return Err(invalid_response());
    }
    let mime = match crate::bandcamp::bounded_string(Some(mime_type), 128) {
        Ok(m) => m,
        Err(_) => {
            return Err(invalid_response());
        },
    };
    Ok(VimeoPlaybackUrl { url, kind, mime_type: mime })
}

/// A progressive file entry: its MIME type, URL and height, each when it has the expected JSON
/// type.
#[derive(Clone, Debug, PartialEq, Eq)]
pub struct VimeoProgressive {
    pub mime_type: Option<String>,
    pub url: Option<String>,
    pub height: Option<u64>,
}

pub struct ProgressiveView {
    pub mime_type: Option<Seq<char>>,
    pub url: Option<Seq<char>>,
    pub height: Option<u64>,
}

pub open spec fn progressive_view(v: Seq<VimeoProgressive>) -> Seq<ProgressiveView> {
    v.map_values(
        |p: VimeoProgressive|
            ProgressiveView {
                mime_type: opt_text(p.mime_type),
                url: opt_text(p.url),
                height: p.height,
            },
    )
}

/// Progressive candidates are MP4 audio (score 0) or MP4 video (score its height, at least 1);
/// the lowest score wins, the first on a tie. Every candidate URL must be valid. The outer
/// `None` is an invalid response.
pub open spec fn progressive_fold(
    selected: Option<(u64, PlaybackView)>,
    ps: Seq<ProgressiveView>,
    options: VimeoSourceOptions,
) -> Option<Option<(u64, PlaybackView)>>
    decreases ps.len(),
{
    if ps.len() == 0 {
        Some(selected)
    } else {
        let p = ps[0];
        let mime = match p.mime_type {
            Some(m) => m,
            None => Seq::empty(),
        };
        if !(mime == "audio/mp4"@ || mime == "video/mp4"@) {
            progressive_fold(selected, ps.drop_first(), options)
        } else {
            match p.url {
                None => None,
                Some(url) => match spec_playback_url(
                    url,
                    VimeoPlaybackKind::ProgressiveMp4,
                    mime,
                    options,
                ) {
                    None => None,
                    Some(candidate) => {
                        let height = match p.height {
                            Some(h) => h,
                            None => 0,
                        };
                        let score: u64 = if mime == "audio/mp4"@ {
                            0
                        } else if height > 1 {
                            height
                        } else {
                            1
                        };
                        let replace = match selected {
                            None => true,
                            Some((best, _)) => score < best,
                        };
                        progressive_fold(
                            if replace {
                                Some((score, candidate))
                            } else {
                                selected
                            },
                            ps.drop_first(),
                            options,
                        )
                    },
                },
            }
        }
    }
}

pub open spec fn spec_select_progressive(ps: Seq<ProgressiveView>, options: VimeoSourceOptions) -> Option<
    Option<PlaybackView>,
> {
    match progressive_fold(None, ps, options) {
        None => None,
        Some(None) => Some(None),
        Some(Some((_, p))) => Some(Some(p)),
    }
}

/// Selects the progressive MP4 candidate to play.
pub fn select_progressive(candidates: &[VimeoProgressive], options: &VimeoSourceOptions) -> (result:
    Result<Option<VimeoPlaybackUrl>, VimeoError>)
    ensures
        match spec_select_progressive(progressive_view(candidates@), *options) {
            Some(choice) => result matches Ok(p) && opt_playback(p) == choice,
            None => result matches Err(e) && e.spec_kind() == VimeoErrorKind::InvalidResponse,
        },
{
    let ghost all = progressive_view(candidates@);
    let mut selected: Option<(u64, VimeoPlaybackUrl)> = None;
    let mut i: usize = 0;
    proof {
        assert(all.skip(0) =~= all);
    }
    while i < candidates.len()
        invariant
            i <= candidates@.len(),
            all == progressive_view(candidates@),
            progressive_fold(None, all, *options) == progressive_fold(
                match selected {
                    Some((s, p)) => Some((s, p.spec_view())),
                    None => None,
                },
                all.skip(i as int),
                *options,
            ),
        decreases candidates@.len() - i,
    {
        proof {
            assert(all.skip(i as int)[0] == all[i as int]);
            assert(all.skip(i as int).drop_first() =~= all.skip(i + 1));
            reveal_strlit("");
            assert(""@ =~= Seq::<char>::empty());
        }
        let c = &candidates[i];
        let mime = match &c.mime_type {
            Some(m) => copy_text(m.as_str()),
            None => copy_text(""),
        };
        proof {
            assert(mime@ == (match all[i as int].mime_type {
                Some(m) => m,
                None => Seq::<char>::empty(),
            }));
        }
        let mime_chars = chars_of(mime.as_str());
        let is_audio = is_text(mime_chars.as_slice(), "audio/mp4");
        let is_video = is_text(mime_chars.as_slice(), "video/mp4");
        if is_audio || is_video {
            let url = match &c.url {
                Some(u) => u,
                None => {
                    return Err(invalid_response());
                },
            };
            let candidate = parse_playback_url(
                url.as_str(),
                VimeoPlaybackKind::ProgressiveMp4,
                mime.as_str(),
                options,
            )?;
            let height = match c.height {
                Some(h) => h,
                None => 0,
            };
            let score: u64 = if is_audio {
                0
            } else if height > 1 {
                height
            } else {
                1
            };
            let replace = match &selected {
                None => true,
                Some((best, _)) => score < *best,
            };
            if replace {
                selected = Some((score, candidate));
            }
        }
        i = i + 1;
    }
    proof {
        assert(all.skip(i as int) =~= Seq::<ProgressiveView>::empty());
    }
    match selected {
        Some((_, p)) => Ok(Some(p)),
        None => Ok(None),
    }
}

/// HLS delivery of the public player config: the `default_cdn` name and the `cdns` object as
/// name and URL pairs (the URL when it is a string), or `None` when `cdns` is not an object.
#[derive(Clone, Debug, PartialEq, Eq)]
pub struct VimeoHlsFiles {
    pub default_cdn: Option<String>,
    pub cdns: Option<Vec<(String, Option<String>)>>,
}

/// The `request.files` object of the public player config: the `progressive` list when an array
/// and the `hls` object when present.
#[derive(Clone, Debug, PartialEq, Eq)]
pub struct VimeoPublicFiles {
    pub progressive: Option<Vec<VimeoProgressive>>,
    pub hls: Option<VimeoHlsFiles>,
}

pub open spec fn cdn_url(cdns: Seq<(String, Option<String>)>, name: Seq<char>) -> Option<Seq<char>>
    decreases cdns.len(),
{
    if cdns.len() == 0 {
        None
    } else if cdns[0].0@ == name {
        opt_text(cdns[0].1)
    } else {
        cdn_url(cdns.drop_first(), name)
    }
}

pub open spec fn hls_mime() -> Seq<char> {
    "application/x-mpegURL"@
}

/// The playback URL of the public player config: a progressive MP4 when one is valid, otherwise
/// the default CDN's HLS URL when HLS is offered.
pub open spec fn spec_public_playback(files: Option<VimeoPublicFiles>, options: VimeoSourceOptions) -> Option<
    Option<PlaybackView>,
> {
    match files {
        None => None,
        Some(f) => {
            let progressive = match f.progressive {
                None => Some(None),
                Some(list) => if list@.len() > options.max_playback_candidates {
                    None
                } else {
                    spec_select_progressive(progressive_view(list@), options)
                },
            };
            match progressive {
                None => None,
                Some(Some(p)) => Some(Some(p)),
                Some(None) => match f.hls {
                    None => Some(None),
                    Some(h) => match spec_bounded_string(
                        opt_text(h.default_cdn),
                        options.max_metadata_string_bytes as int,
                    ) {
                        None => None,
                        Some(cdn) => match h.cdns {
                            None => None,
                            Some(cdns) => if cdns@.len() > options.max_playback_candidates {
                                None
                            } else {
                                match cdn_url(cdns@, cdn) {
                                    None => None,
                                    Some(url) => match spec_playback_url(
                                        url,
                                        VimeoPlaybackKind::Hls,
                                        hls_mime(),
                                        options,
                                    ) {
                                        None => None,
                                        Some(p) => Some(Some(p)),
                                    },
                                }
                            },
                        },
                    },
                },
            }
        },
    }
}

fn find_cdn(cdns: &Vec<(String, Option<String>)>, name: &str) -> (url: Option<String>)
    ensures
        opt_text(url) == cdn_url(cdns@, name@),
{
    let target = chars_of(name);
    let mut i: usize = 0;
    proof {
        assert(cdns@.skip(0) =~= cdns@);
    }
    while i < cdns.len()
        invariant
            i <= cdns@.len(),
            target@ == name@,
            cdn_url(cdns@, name@) == cdn_url(cdns@.skip(i as int), name@),
        decreases cdns@.len() - i,
    {
        proof {
            assert(cdns@.skip(i as int)[0] == cdns@[i as int]);
            assert(cdns@.skip(i as int).drop_first() =~= cdns@.skip(i + 1));
        }
        if seq_equal(chars_of(cdns[i].0.as_str()).as_slice(), target.as_slice()) {
            return crate::track::copy_opt_text(&cdns[i].1);
        }
        i = i + 1;
    }
    None
}

/// Chooses the playback URL of the public player config.
pub fn parse_public_playback(files: &Option<VimeoPublicFiles>, options: &VimeoSourceOptions) -> (result:
    Result<Option<VimeoPlaybackUrl>, VimeoError>)
    ensures
        match spec_public_playback(*files, *options) {
            Some(choice) => result matches Ok(p) && opt_playback(p) == choice,
            None => result matches Err(e) && e.spec_kind() == VimeoErrorKind::InvalidResponse,
        },
{
    let f = match files {
        Some(f) => f,
        None => {
            return Err(invalid_response());
        },
    };
    match &f.progressive {
        Some(list) => {
            if list.len() > options.max_playback_candidates {
                return Err(invalid_response());
            }
            match select_progressive(list.as_slice(), options)? {
                Some(p) => {
                    return Ok(Some(p));
                },
                None => {},
            }
        },
        None => {},
    }
    let h = match &f.hls {
        Some(h) => h,
        None => {
            return Ok(None);
        },
    };
    let cdn = match &h.default_cdn {
        Some(c) => match crate::bandcamp::bounded_string(
            Some(c.as_str()),
            options.max_metadata_string_bytes,
        ) {
            Ok(c) => c,
            Err(_) => {
                return Err(invalid_response());
            },
        },
        None => {
            return Err(invalid_response());
        },
    };
    let cdns = match &h.cdns {
        Some(c) => c,
        None => {
            return Err(invalid_response());
        },
    };
    if cdns.len() > options.max_playback_candidates {
        return Err(invalid_response());
    }
    let url = match find_cdn(cdns, cdn.as_str()) {
        Some(u) => u,
        None => {
            return Err(invalid_response());
        },
    };
    let p = parse_playback_url(url.as_str(), VimeoPlaybackKind::Hls, "application/x-mpegURL", options)?;
    Ok(Some(p))
}

/// The `play` object of an API answer: the `progressive` list when an array and the HLS link
/// when a string.
#[derive(Clone, Debug, PartialEq, Eq)]
pub struct VimeoApiPlay {
    pub progressive: Option<Vec<VimeoProgressive>>,
    pub hls_link: Option<String>,
}

/// The playback URL of an API answer: a progressive MP4 when one is valid, otherwise the HLS
/// link when there is one.
pub open spec fn spec_api_playback(play: Option<VimeoApiPlay>, options: VimeoSourceOptions) -> Option<
    Option<PlaybackView>,
> {
    match play {
        None => Some(None),
        Some(p) => {
            let progressive = match p.progressive {
                None => Some(None),
                Some(list) => if list@.len() > options.max_playback_candidates {
                    None
                } else {
                    spec_select_progressive(progressive_view(list@), options)
                },
            };
            match progressive {
                None => None,
                Some(Some(c)) => Some(Some(c)),
                Some(None) => match p.hls_link {
                    None => Some(None),
                    Some(link) => match spec_playback_url(
                        link@,
                        VimeoPlaybackKind::Hls,
                        hls_mime(),
                        options,
                    ) {
                        None => None,
                        Some(c) => Some(Some(c)),
                    },
                },
            }
        },
    }
}

/// Chooses the playback URL of an API answer.
pub fn parse_api_playback(play: &Option<VimeoApiPlay>, options: &VimeoSourceOptions) -> (result:
    Result<Option<VimeoPlaybackUrl>, VimeoError>)
    ensures
        match spec_api_playback(*play, *options) {
            Some(choice) => result matches Ok(p) && opt_playback(p) == choice,
            None => result matches Err(e) && e.spec_kind() == VimeoErrorKind::InvalidResponse,
        },
{
    let p = match play {
        Some(p) => p,
        None => {
            return Ok(None);
        },
    };
    match &p.progressive {
        Some(list) => {
            if list.len() > options.max_playback_candidates {
                return Err(invalid_response());
            }
            match select_progressive(list.as_slice(), options)? {
                Some(c) => {
                    return Ok(Some(c));
                },
                None => {},
            }
        },
        None => {},
    }
    match &p.hls_link {
        None => Ok(None),
        Some(link) => Ok(
            Some(
                parse_playback_url(
                    link.as_str(),
                    VimeoPlaybackKind::Hls,
                    "application/x-mpegURL",
                    options,
                )?,
            ),
        ),
    }
}

/// Only progressive MP4 playback can be opened.
pub fn check_playback_kind(playback: &VimeoPlaybackUrl) -> (result: Result<(), VimeoPlaybackError>)
    ensures
        playback.spec_view().kind == VimeoPlaybackKind::ProgressiveMp4 ==> result is Ok,
        playback.spec_view().kind != VimeoPlaybackKind::ProgressiveMp4 ==> (result matches Err(e)
            && e.spec_kind() == VimeoPlaybackErrorKind::IncompatibleFormat),
{
    match playback.kind {
        VimeoPlaybackKind::ProgressiveMp4 => Ok(()),
        VimeoPlaybackKind::Hls => Err(
            VimeoPlaybackError::new(VimeoPlaybackErrorKind::IncompatibleFormat),
        ),
    }
}

/// Only AAC (LC, HE-AAC v1 or v2) or Opus in an MP4 container is playable.
pub fn check_playback_format(container: crate::media::Container, codec: crate::media::Codec) -> (result:
    Result<(), VimeoPlaybackError>)
    ensures
        container == crate::media::Container::Mp4 && (codec == crate::media::Codec::AacLc || codec
            == crate::media::Codec::HeAacV1 || codec == crate::media::Codec::HeAacV2 || codec
            == crate::media::Codec::Opus) ==> result is Ok,
        !(container == crate::media::Container::Mp4 && (codec == crate::media::Codec::AacLc
            || codec == crate::media::Codec::HeAacV1 || codec == crate::media::Codec::HeAacV2
            || codec == crate::media::Codec::Opus)) ==> (result matches Err(e) && e.spec_kind()
            == VimeoPlaybackErrorKind::IncompatibleFormat),
{
    let codec_ok = match codec {
        crate::media::Codec::AacLc
        | crate::media::Codec::HeAacV1
        | crate::media::Codec::HeAacV2
        | crate::media::Codec::Opus => true,
        _ => false,
    };
    let mp4 = match container {
        crate::media::Container::Mp4 => true,
        _ => false,
    };
    if !mp4 || !codec_ok {
        return Err(VimeoPlaybackError::new(VimeoPlaybackErrorKind::IncompatibleFormat));
    }
    Ok(())
}

} // verus!

verus! {

// ---------------------------------------------------------------------------------------------
// Tracks
// ---------------------------------------------------------------------------------------------

/// A video `id` as the JSON gives it: a number or a string.
#[derive(Clone, Debug, PartialEq, Eq)]
pub enum VimeoId {
    Number(u64),
    Text(String),
}

pub open spec fn id_text(id: Option<VimeoId>) -> Option<Seq<char>> {
    match id {
        Some(VimeoId::Number(n)) => Some(crate::track::decimal_text(n as nat)),
        Some(VimeoId::Text(t)) => Some(t@),
        None => None,
    }
}

/// The `video` object of the public player config, when present: its `id`, `title`,
/// `owner.name`, `thumbnail_url`, and its `duration` read as a duration (`None` when it is not a
/// finite, non-negative number of seconds).
#[derive(Clone, Debug, PartialEq, Eq)]
pub struct VimeoPublicVideo {
    pub id: Option<VimeoId>,
    pub title: Option<String>,
    pub owner_name: Option<String>,
    pub duration: Option<Duration>,
    pub thumbnail_url: Option<String>,
}

/// A Vimeo video with its fresh playback URL, when one was offered.
#[derive(PartialEq, Eq)]
pub struct VimeoSourceTrack {
    pub info: crate::track::TrackInfo,
    pub playback: Option<VimeoPlaybackUrl>,
}

pub open spec fn canonical(route: VimeoRoute) -> Seq<char> {
    match route.unlisted_hash {
        Some(h) => "https://vimeo.com/"@ + route.video_id@ + "/"@ + h@,
        None => "https://vimeo.com/"@ + route.video_id@,
    }
}

pub open spec fn author_or_unknown(author: Option<Seq<char>>) -> Seq<char> {
    match author {
        Some(a) => a,
        None => "Unknown artist"@,
    }
}

/// The track details of a public player config, or `None` when the config is invalid.
pub open spec fn spec_public_track(
    video: Option<VimeoPublicVideo>,
    route: VimeoRoute,
    options: VimeoSourceOptions,
) -> Option<crate::track::TrackInfoView> {
    let meta = options.max_metadata_string_bytes as int;
    match video {
        None => None,
        Some(v) => match (
            id_text(v.id),
            spec_bounded_string(opt_text(v.title), meta),
            spec_bounded_optional(opt_text(v.owner_name), meta),
            v.duration,
            spec_bounded_optional(opt_text(v.thumbnail_url), meta),
        ) {
            (Some(id), Some(title), Some(author), Some(duration), Some(artwork_url)) => if !(
            spec_valid_video_id(id)) || id != route.video_id@ || duration@
                > options.max_track_duration@ {
                None
            } else {
                Some(
                    crate::track::TrackInfoView {
                        title,
                        author: author_or_unknown(author),
                        duration: duration@,
                        identifier: route.video_id@,
                        is_stream: false,
                        uri: Some(canonical(route)),
                        artwork_url,
                        isrc: None,
                    },
                )
            },
            _ => None,
        },
    }
}

fn id_string(id: &Option<VimeoId>) -> (text: Option<String>)
    ensures
        opt_text(text) == id_text(*id),
{
    match id {
        Some(VimeoId::Number(n)) => Some(crate::track::decimal_string(*n)),
        Some(VimeoId::Text(t)) => Some(copy_text(t.as_str())),
        None => None,
    }
}

fn bounded(value: &Option<String>, limit: usize) -> (result: Result<String, VimeoError>)
    ensures
        match spec_bounded_string(opt_text(*value), limit as int) {
            Some(s) => result matches Ok(r) && r@ == s,
            None => result matches Err(e) && e.spec_kind() == VimeoErrorKind::InvalidResponse,
        },
{
    let v = match value {
        Some(v) => v.as_str(),
        None => {
            return Err(invalid_response());
        },
    };
    match crate::bandcamp::bounded_string(Some(v), limit) {
        Ok(s) => Ok(s),
        Err(_) => Err(invalid_response()),
    }
}

fn bounded_optional(value: &Option<String>, limit: usize) -> (result: Result<
    Option<String>,
    VimeoError,
>)
    ensures
        match spec_bounded_optional(opt_text(*value), limit as int) {
            Some(a) => result matches Ok(r) && opt_text(r) == a,
            None => result matches Err(e) && e.spec_kind() == VimeoErrorKind::InvalidResponse,
        },
{
    match value {
        None => Ok(None),
        Some(_) => Ok(Some(bounded(value, limit)?)),
    }
}

/// Reads a video from the public player config and its files.
pub fn parse_public_track(
    video: &Option<VimeoPublicVideo>,
    files: &Option<VimeoPublicFiles>,
    route: &VimeoRoute,
    options: &VimeoSourceOptions,
) -> (result: Result<VimeoSourceTrack, VimeoError>)
    ensures
        match (spec_public_track(*video, *route, *options), spec_public_playback(*files, *options)) {
            (Some(info), Some(playback)) => result matches Ok(t) && t.info@ == info && opt_playback(
                t.playback,
            ) == playback,
            _ => result matches Err(e) && e.spec_kind() == VimeoErrorKind::InvalidResponse,
        },
{
    let v = match video {
        Some(v) => v,
        None => {
            return Err(invalid_response());
        },
    };
    let meta = options.max_metadata_string_bytes;
    let id = match id_string(&v.id) {
        Some(i) => i,
        None => {
            return Err(invalid_response());
        },
    };
    let id_chars = chars_of(id.as_str());
    if !valid_video_id(id_chars.as_slice()) || !seq_equal(
        id_chars.as_slice(),
        chars_of(route.video_id.as_str()).as_slice(),
    ) {
        return Err(invalid_response());
    }
    let title = bounded(&v.title, meta)?;
    let author = match bounded_optional(&v.owner_name, meta)? {
        Some(a) => a,
        None => copy_text("Unknown artist"),
    };
    let duration = match v.duration {
        Some(d) => d,
        None => {
            return Err(invalid_response());
        },
    };
    if options.max_track_duration.less_than(&duration) {
        return Err(invalid_response());
    }
    let artwork_url = bounded_optional(&v.thumbnail_url, meta)?;
    let playback = parse_public_playback(files, options)?;
    Ok(
        VimeoSourceTrack {
            info: crate::track::TrackInfo {
                title,
                author,
                duration,
                identifier: copy_text(route.video_id.as_str()),
                is_stream: false,
                uri: Some(route.canonical_url()),
                artwork_url,
                isrc: None,
            },
            playback,
        },
    )
}

/// The fields of an API video answer: `uri`, `name`, `user.name`, `link`,
/// `pictures.base_link` (each when a string), its `duration` read as a duration, and its `play`
/// object.
#[derive(Clone, Debug, PartialEq, Eq)]
pub struct VimeoApiVideo {
    pub uri: Option<String>,
    pub name: Option<String>,
    pub user_name: Option<String>,
    pub duration: Option<Duration>,
    pub link: Option<String>,
    pub base_link: Option<String>,
    pub play: Option<VimeoApiPlay>,
}

/// The track details of an API answer, or `None` when the answer is invalid.
pub open spec fn spec_api_track(
    video: VimeoApiVideo,
    route: VimeoRoute,
    options: VimeoSourceOptions,
) -> Option<crate::track::TrackInfoView> {
    let meta = options.max_metadata_string_bytes as int;
    match opt_text(video.uri) {
        None => None,
        Some(uri) => if !has_prefix(uri, "/videos/"@) {
            None
        } else {
            let id = uri.skip("/videos/"@.len() as int);
            if id != route.video_id@ || !spec_valid_video_id(id) {
                None
            } else {
                match (
                    spec_bounded_string(opt_text(video.name), meta),
                    spec_bounded_optional(opt_text(video.user_name), meta),
                    video.duration,
                    spec_bounded_optional(
                        opt_text(video.link),
                        options.max_identifier_bytes as int,
                    ),
                    spec_bounded_optional(opt_text(video.base_link), meta),
                ) {
                    (Some(title), Some(author), Some(duration), Some(link), Some(artwork_url)) => if duration@
                        > options.max_track_duration@ {
                        None
                    } else {
                        Some(
                            crate::track::TrackInfoView {
                                title,
                                author: author_or_unknown(author),
                                duration: duration@,
                                identifier: route.video_id@,
                                is_stream: false,
                                uri: Some(
                                    match link {
                                        Some(l) => l,
                                        None => canonical(route),
                                    },
                                ),
                                artwork_url,
                                isrc: None,
                            },
                        )
                    },
                    _ => None,
                }
            }
        },
    }
}

/// Reads a video from an API answer.
pub fn parse_api_track(video: &VimeoApiVideo, route: &VimeoRoute, options: &VimeoSourceOptions) -> (result:
    Result<VimeoSourceTrack, VimeoError>)
    ensures
        match (spec_api_track(*video, *route, *options), spec_api_playback(video.play, *options)) {
            (Some(info), Some(playback)) => result matches Ok(t) && t.info@ == info && opt_playback(
                t.playback,
            ) == playback,
            _ => result matches Err(e) && e.spec_kind() == VimeoErrorKind::InvalidResponse,
        },
{
    let uri = match &video.uri {
        Some(u) => chars_of(u.as_str()),
        None => {
            return Err(invalid_response());
        },
    };
    let prefix = chars_of("/videos/");
    if !starts_with(uri.as_slice(), prefix.as_slice()) {
        return Err(invalid_response());
    }
    let id = copy_range(uri.as_slice(), prefix.len(), uri.len());
    proof {
        assert(id@ =~= uri@.skip("/videos/"@.len() as int));
    }
    if !seq_equal(id.as_slice(), chars_of(route.video_id.as_str()).as_slice()) || !valid_video_id(
        id.as_slice(),
    ) {
        return Err(invalid_response());
    }
    let meta = options.max_metadata_string_bytes;
    let title = bounded(&video.name, meta)?;
    let author = match bounded_optional(&video.user_name, meta)? {
        Some(a) => a,
        None => copy_text("Unknown artist"),
    };
    let duration = match video.duration {
        Some(d) => d,
        None => {
            return Err(invalid_response());
        },
    };
    if options.max_track_duration.less_than(&duration) {
        return Err(invalid_response());
    }
    let link = match bounded_optional(&video.link, options.max_identifier_bytes)? {
        Some(l) => l,
        None => route.canonical_url(),
    };
    let artwork_url = bounded_optional(&video.base_link, meta)?;
    let playback = parse_api_playback(&video.play, options)?;
    Ok(
        VimeoSourceTrack {
            info: crate::track::TrackInfo {
                title,
                author,
                duration,
                identifier: copy_text(route.video_id.as_str()),
                is_stream: false,
                uri: Some(link),
                artwork_url,
                isrc: None,
            },
            playback,
        },
    )
}

// ---------------------------------------------------------------------------------------------
// Manager state
// ---------------------------------------------------------------------------------------------

/// The policy, optional API credentials and lifecycle state of a Vimeo source.
pub struct VimeoSourceManager {
    options: VimeoSourceOptions,
    authentication: Option<VimeoAuthentication>,
    shutdown: bool,
}

impl VimeoSourceManager {
    pub closed spec fn spec_options(&self) -> VimeoSourceOptions {
        self.options
    }

    pub closed spec fn spec_authentication(&self) -> Option<VimeoAuthentication> {
        self.authentication
    }

    pub closed spec fn is_shut_down(&self) -> bool {
        self.shutdown
    }

    fn build(
        options: VimeoSourceOptions,
        authentication: Option<VimeoAuthentication>,
        redirect_ceiling: u32,
        retry_ceiling: u32,
    ) -> (result: Result<Self, VimeoError>)
        ensures
            options.is_valid() && options.http.is_valid(redirect_ceiling, retry_ceiling) ==> (
            result matches Ok(m) && m.spec_options() == options && m.spec_authentication()
                == authentication && !m.is_shut_down()),
            !(options.is_valid() && options.http.is_valid(redirect_ceiling, retry_ceiling)) ==> (
            result matches Err(e) && e.spec_kind() == VimeoErrorKind::InvalidOptions),
    {
        options.validate()?;
        if options.http.validate(redirect_ceiling, retry_ceiling).is_err() {
            return Err(VimeoError::new(VimeoErrorKind::InvalidOptions));
        }
        Ok(VimeoSourceManager { options, authentication, shutdown: false })
    }

    /// A public-config manager; the HTTP policy is validated against the transport's redirect
    /// and retry ceilings.
    pub fn new(options: VimeoSourceOptions, redirect_ceiling: u32, retry_ceiling: u32) -> (result:
        Result<Self, VimeoError>)
        ensures
            options.is_valid() && options.http.is_valid(redirect_ceiling, retry_ceiling) ==> (
            result matches Ok(m) && m.spec_options() == options && m.spec_authentication() is None
                && !m.is_shut_down()),
            !(options.is_valid() && options.http.is_valid(redirect_ceiling, retry_ceiling)) ==> (
            result matches Err(e) && e.spec_kind() == VimeoErrorKind::InvalidOptions),
    {
        Self::build(options, None, redirect_ceiling, retry_ceiling)
    }

    /// A manager that uses the official API for metadata and expiring file links.
    pub fn with_authentication(
        options: VimeoSourceOptions,
        authentication: VimeoAuthentication,
        redirect_ceiling: u32,
        retry_ceiling: u32,
    ) -> (result: Result<Self, VimeoError>)
        ensures
            options.is_valid() && options.http.is_valid(redirect_ceiling, retry_ceiling) ==> (
            result matches Ok(m) && m.spec_options() == options && m.spec_authentication()
                == Some(authentication) && !m.is_shut_down()),
            !(options.is_valid() && options.http.is_valid(redirect_ceiling, retry_ceiling)) ==> (
            result matches Err(e) && e.spec_kind() == VimeoErrorKind::InvalidOptions),
    {
        Self::build(options, Some(authentication), redirect_ceiling, retry_ceiling)
    }

    pub fn authentication_configured(&self) -> (configured: bool)
        ensures
            configured == self.spec_authentication() is Some,
    {
        self.authentication.is_some()
    }

    pub fn source_name(&self) -> (name: &'static str)
        ensures
            name == "vimeo",
    {
        "vimeo"
    }

    pub fn ensure_active(&self, cancelled: bool) -> (result: Result<(), VimeoError>)
        ensures
            self.is_shut_down() ==> (result matches Err(e) && e.spec_kind()
                == VimeoErrorKind::Shutdown),
            !self.is_shut_down() && cancelled ==> (result matches Err(e) && e.spec_kind()
                == VimeoErrorKind::Cancelled),
            !self.is_shut_down() && !cancelled ==> result is Ok,
    {
        if self.shutdown {
            return Err(VimeoError::new(VimeoErrorKind::Shutdown));
        }
        if cancelled {
            return Err(VimeoError::new(VimeoErrorKind::Cancelled));
        }
        Ok(())
    }

    /// The route that playback of a track is refreshed from: the stored URI's route when it
    /// names the same video (keeping an unlisted hash), else the bare video.
    pub fn playback_route(&self, track: &VimeoSourceTrack) -> (result: Result<VimeoRoute, VimeoError>)
        ensures
            !spec_valid_video_id(track.info.identifier@) ==> (result matches Err(e)
                && e.spec_kind() == VimeoErrorKind::InvalidResponse),
            spec_valid_video_id(track.info.identifier@) ==> (result matches Ok(r) && r.video_id@
                == track.info.identifier@ && match track.info.uri {
                Some(u) => match spec_route_vimeo(u@, self.spec_options()) {
                    Some((id, hash)) => if id == track.info.identifier@ {
                        opt_text(r.unlisted_hash) == hash
                    } else {
                        r.unlisted_hash is None
                    },
                    None => r.unlisted_hash is None,
                },
                None => r.unlisted_hash is None,
            }),
    {
        let id = chars_of(track.info.identifier.as_str());
        if !valid_video_id(id.as_slice()) {
            return Err(invalid_response());
        }
        let routed = match &track.info.uri {
            Some(u) => route_vimeo_identifier(u.as_str(), &self.options),
            None => None,
        };
        match routed {
            Some(r) => if seq_equal(chars_of(r.video_id.as_str()).as_slice(), id.as_slice()) {
                Ok(r)
            } else {
                Ok(VimeoRoute { video_id: copy_text(track.info.identifier.as_str()), unlisted_hash: None })
            },
            None => Ok(VimeoRoute { video_id: copy_text(track.info.identifier.as_str()), unlisted_hash: None }),
        }
    }

    /// Rebuilds a stored track: the payload is empty and the identifier a valid video id.
    pub fn decode_with_info(&self, info: &crate::track::TrackInfo, payload: &[u8]) -> (result:
        Result<VimeoSourceTrack, crate::source::SourceRegistryError>)
        ensures
            payload@.len() == 0 && spec_valid_video_id(info.identifier@) ==> (result matches Ok(t)
                && t.info@ == info@ && t.playback is None),
            !(payload@.len() == 0 && spec_valid_video_id(info.identifier@)) ==> (result matches Err(
                e,
            ) && e == crate::source::SourceRegistryError::SourceFailure),
    {
        if payload.len() != 0 || !valid_video_id(chars_of(info.identifier.as_str()).as_slice()) {
            return Err(crate::source::SourceRegistryError::SourceFailure);
        }
        Ok(VimeoSourceTrack { info: info.duplicate(), playback: None })
    }

    /// Stops the manager; every later load fails as shut down.
    pub fn shutdown(&mut self)
        ensures
            final(self).is_shut_down(),
            final(self).spec_options() == old(self).spec_options(),
            final(self).spec_authentication() == old(self).spec_authentication(),
    {
        self.shutdown = true;
    }
}

/// Every track read from a player config or an API answer carries a valid video identifier,
/// which is what rebuilding a stored track (`decode_with_info`) accepts.
pub proof fn law_loaded_tracks_can_be_stored(
    public_video: Option<VimeoPublicVideo>,
    api_video: VimeoApiVideo,
    route: VimeoRoute,
    options: VimeoSourceOptions,
)
    ensures
        spec_public_track(public_video, route, options) matches Some(t) ==> spec_valid_video_id(
            t.identifier,
        ),
        spec_api_track(api_video, route, options) matches Some(t) ==> spec_valid_video_id(
            t.identifier,
        ),
{
}

} // verus!
