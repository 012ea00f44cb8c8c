use vstd::prelude::*;

use vstd::utf8::encode_utf8;

use crate::bandcamp::{spec_bounded_string, trim_slashes};
use crate::playlist::{contains_char, seq_equal};
use crate::remote_http::{RemoteHttpError, RemoteHttpErrorKind, RemoteHttpOptions};
use crate::route_util::{contains, utf8_len, utf8_length};
use crate::text::{
    chars_of, copy_range, has_prefix, split_once, split_once_chars, starts_with, string_from_chars,
    trim, trim_chars,
};
use crate::track::{copy_text, opt_text};

verus! {

pub const MAX_API_BASE_URL_BYTES: usize = 4 * 1024;

pub const MAX_CLIENT_ID_BYTES: usize = 256;

pub const MAX_OAUTH_TOKEN_BYTES: usize = 16 * 1024;

pub const MAX_CONFIGURED_IDENTIFIER_BYTES: usize = 64 * 1024;

pub const MAX_CONFIGURED_METADATA_STRING_BYTES: usize = 1024 * 1024;

pub const MAX_CONFIGURED_RESPONSE_BYTES: u64 = 64 * 1024 * 1024;

pub const MAX_CONFIGURED_COLLECTION_TRACKS: usize = 10_000;

pub const MAX_CONFIGURED_TRANSCODINGS: usize = 128;

pub const MAX_CONFIGURED_STREAM_URL_BYTES: usize = 1024 * 1024;

// ---------------------------------------------------------------------------------------------
// Errors
// ---------------------------------------------------------------------------------------------

#[derive(Clone, Copy, Debug, PartialEq, Eq, Structural)]
pub enum SoundCloudErrorKind {
    InvalidOptions,
    InvalidAuthentication,
    Cancelled,
    Shutdown,
    Network,
    RateLimited,
    AuthenticationRequired,
    Unavailable,
    PreviewOnly,
    Blocked,
    InvalidResponse,
    UnsupportedRoute,
}

#[derive(Clone, Copy, Debug, PartialEq, Eq, Structural)]
pub struct SoundCloudError {
    kind: SoundCloudErrorKind,
}

impl SoundCloudError {
    pub closed spec fn spec_kind(self) -> SoundCloudErrorKind {
        self.kind
    }

    pub fn new(kind: SoundCloudErrorKind) -> (error: Self)
        ensures
            error.spec_kind() == kind,
    {
        SoundCloudError { kind }
    }

    pub fn kind(self) -> (kind: SoundCloudErrorKind)
        ensures
            kind == self.spec_kind(),
    {
        self.kind
    }

    pub fn message(self) -> (text: &'static str)
        ensures
            text == (match self.spec_kind() {
                SoundCloudErrorKind::InvalidOptions => "invalid SoundCloud source policy",
                SoundCloudErrorKind::InvalidAuthentication => "invalid SoundCloud authentication policy",
                SoundCloudErrorKind::Cancelled => "SoundCloud load cancelled",
                SoundCloudErrorKind::Shutdown => "SoundCloud source is shut down",
                SoundCloudErrorKind::Network => "SoundCloud request failed",
                SoundCloudErrorKind::RateLimited => "SoundCloud rate limit reached",
                SoundCloudErrorKind::AuthenticationRequired => "SoundCloud rejected authentication",
                SoundCloudErrorKind::Unavailable => "SoundCloud content is unavailable",
                SoundCloudErrorKind::PreviewOnly => "SoundCloud content is preview-only",
                SoundCloudErrorKind::Blocked => "SoundCloud content is blocked",
                SoundCloudErrorKind::InvalidResponse => "SoundCloud returned an invalid response",
                SoundCloudErrorKind::UnsupportedRoute => "SoundCloud route is not implemented",
            }),
    {
        match self.kind {
            SoundCloudErrorKind::InvalidOptions => "invalid SoundCloud source policy",
            SoundCloudErrorKind::InvalidAuthentication => "invalid SoundCloud authentication policy",
            SoundCloudErrorKind::Cancelled => "SoundCloud load cancelled",
            SoundCloudErrorKind::Shutdown => "SoundCloud source is shut down",
            SoundCloudErrorKind::Network => "SoundCloud request failed",
            SoundCloudErrorKind::RateLimited => "SoundCloud rate limit reached",
            SoundCloudErrorKind::AuthenticationRequired => "SoundCloud rejected authentication",
            SoundCloudErrorKind::Unavailable => "SoundCloud content is unavailable",
            SoundCloudErrorKind::PreviewOnly => "SoundCloud content is preview-only",
            SoundCloudErrorKind::Blocked => "SoundCloud content is blocked",
            SoundCloudErrorKind::InvalidResponse => "SoundCloud returned an invalid response",
            SoundCloudErrorKind::UnsupportedRoute => "SoundCloud route is not implemented",
        }
    }
}

pub fn invalid_response() -> (error: SoundCloudError)
    ensures
        error.spec_kind() == SoundCloudErrorKind::InvalidResponse,
{
    SoundCloudError::new(SoundCloudErrorKind::InvalidResponse)
}

#[derive(Clone, Copy, Debug, PartialEq, Eq, Structural)]
pub enum SoundCloudPlaybackErrorKind {
    Source(SoundCloudErrorKind),
    InvalidOptions,
    Cancelled,
    Network,
    InvalidMedia,
    IncompatibleFormat,
}

#[derive(Clone, Copy, Debug, PartialEq, Eq, Structural)]
pub struct SoundCloudPlaybackError {
    kind: SoundCloudPlaybackErrorKind,
}

impl SoundCloudPlaybackError {
    pub closed spec fn spec_kind(self) -> SoundCloudPlaybackErrorKind {
        self.kind
    }

    pub fn new(kind: SoundCloudPlaybackErrorKind) -> (error: Self)
        ensures
            error.spec_kind() == kind,
    {
        SoundCloudPlaybackError { kind }
    }

    pub fn kind(self) -> (kind: SoundCloudPlaybackErrorKind)
        ensures
            kind == self.spec_kind(),
    {
        self.kind
    }

    pub fn message(self) -> (text: &'static str)
        ensures
            text == (match self.spec_kind() {
                SoundCloudPlaybackErrorKind::Source(_) => "SoundCloud playback discovery failed",
                SoundCloudPlaybackErrorKind::InvalidOptions => "invalid SoundCloud media policy",
                SoundCloudPlaybackErrorKind::Cancelled => "SoundCloud playback cancelled",
                SoundCloudPlaybackErrorKind::Network => "SoundCloud media request failed",
                SoundCloudPlaybackErrorKind::InvalidMedia => "SoundCloud returned invalid media",
                SoundCloudPlaybackErrorKind::IncompatibleFormat => {
                    "SoundCloud media is not a supported audio format"
                },
            }),
    {
        match self.kind {
            SoundCloudPlaybackErrorKind::Source(_) => "SoundCloud playback discovery failed",
            SoundCloudPlaybackErrorKind::InvalidOptions => "invalid SoundCloud media policy",
            SoundCloudPlaybackErrorKind::Cancelled => "SoundCloud playback cancelled",
            SoundCloudPlaybackErrorKind::Network => "SoundCloud media request failed",
            SoundCloudPlaybackErrorKind::InvalidMedia => "SoundCloud returned invalid media",
            SoundCloudPlaybackErrorKind::IncompatibleFormat => {
                "SoundCloud media is not a supported audio format"
            },
        }
    }
}

/// Remote failures of the control API: cancellation, rate limits and missing content keep their
/// meaning, refused credentials need authentication, and anything else is a network failure.
pub open spec fn spec_map_remote_kind(kind: RemoteHttpErrorKind) -> SoundCloudErrorKind {
    match kind {
        RemoteHttpErrorKind::Cancelled => SoundCloudErrorKind::Cancelled,
        RemoteHttpErrorKind::RateLimited => SoundCloudErrorKind::RateLimited,
        RemoteHttpErrorKind::Unauthorized | RemoteHttpErrorKind::Forbidden => {
            SoundCloudErrorKind::AuthenticationRequired
        },
        RemoteHttpErrorKind::NotFound => SoundCloudErrorKind::Unavailable,
        _ => SoundCloudErrorKind::Network,
    }
}

pub fn map_remote_error(error: RemoteHttpError) -> (mapped: SoundCloudError)
    ensures
        mapped.spec_kind() == spec_map_remote_kind(error@.kind),
{
    SoundCloudError::new(
        match error.kind() {
            RemoteHttpErrorKind::Cancelled => SoundCloudErrorKind::Cancelled,
            RemoteHttpErrorKind::RateLimited => SoundCloudErrorKind::RateLimited,
            RemoteHttpErrorKind::Unauthorized | RemoteHttpErrorKind::Forbidden => {
                SoundCloudErrorKind::AuthenticationRequired
            },
            RemoteHttpErrorKind::NotFound => SoundCloudErrorKind::Unavailable,
            _ => SoundCloudErrorKind::Network,
        },
    )
}

pub fn map_playback_source_error(error: SoundCloudError) -> (mapped: SoundCloudPlaybackError)
    ensures
        mapped.spec_kind() == SoundCloudPlaybackErrorKind::Source(error.spec_kind()),
{
    SoundCloudPlaybackError::new(SoundCloudPlaybackErrorKind::Source(error.kind()))
}

/// How a media pipeline failure is reported during playback: cancellation (an interrupted read
/// included) stays cancellation, option errors are option errors, other I/O failures are network
/// failures, and every decoding failure is invalid media.
pub fn map_playback_media_error(error: crate::media::MediaError) -> (mapped: SoundCloudPlaybackError)
    ensures
        match error {
            crate::media::MediaError::Cancelled => mapped.spec_kind()
                == SoundCloudPlaybackErrorKind::Cancelled,
            crate::media::MediaError::InvalidLimits(_)
            | crate::media::MediaError::InvalidHttpOptions(_) => mapped.spec_kind()
                == SoundCloudPlaybackErrorKind::InvalidOptions,
            crate::media::MediaError::Io(_) => mapped.spec_kind()
                == SoundCloudPlaybackErrorKind::Cancelled || mapped.spec_kind()
                == SoundCloudPlaybackErrorKind::Network,
            _ => mapped.spec_kind() == SoundCloudPlaybackErrorKind::InvalidMedia,
        },
{
    let kind = match &error {
        crate::media::MediaError::Cancelled => SoundCloudPlaybackErrorKind::Cancelled,
        crate::media::MediaError::InvalidLimits(_)
        | crate::media::MediaError::InvalidHttpOptions(_) => SoundCloudPlaybackErrorKind::InvalidOptions,
        crate::media::MediaError::Io(e) => {
            if crate::niconico::io_error_interrupted(e) {
                SoundCloudPlaybackErrorKind::Cancelled
            } else {
                SoundCloudPlaybackErrorKind::Network
            }
        },
        _ => SoundCloudPlaybackErrorKind::InvalidMedia,
    };
    SoundCloudPlaybackError::new(kind)
}

// ---------------------------------------------------------------------------------------------
// Authentication
// ---------------------------------------------------------------------------------------------

pub open spec fn is_graphic(c: char) -> bool {
    '!' <= c && c <= '~'
}

/// A credential sent in a header: 1 to `limit` visible ASCII characters.
pub open spec fn valid_credential(value: Seq<char>, limit: int) -> bool {
    &&& value.len() > 0
    &&& value.len() <= limit
    &&& forall|i: int| 0 <= i < value.len() ==> is_graphic(#[trigger] value[i])
}

pub(crate) fn is_valid_credential(value: &str, limit: usize) -> (valid: bool)
    ensures
        valid == valid_credential(value@, limit as int),
{
    let chars = chars_of(value);
    if chars.len() == 0 || chars.len() > limit {
        return false;
    }
    let mut i: usize = 0;
    while i < chars.len()
        invariant
            i <= chars@.len(),
            chars@ == value@,
            forall|j: int| 0 <= j < i ==> is_graphic(#[trigger] chars@[j]),
        decreases chars@.len() - i,
    {
        if !('!' <= chars[i] && chars[i] <= '~') {
            return false;
        }
        i = i + 1;
    }
    true
}

/// A public client ID and an optional OAuth access token.
#[derive(Clone, PartialEq, Eq)]
pub struct SoundCloudAuthentication {
    client_id: String,
    oauth_token: Option<String>,
}

impl SoundCloudAuthentication {
    pub closed spec fn spec_client_id(&self) -> Seq<char> {
        self.client_id@
    }

    pub closed spec fn spec_oauth_token(&self) -> Option<Seq<char>> {
        opt_text(self.oauth_token)
    }

    /// A public policy from an explicit client ID.
    pub fn new(client_id: String) -> (result: Result<Self, SoundCloudError>)
        ensures
            valid_credential(client_id@, MAX_CLIENT_ID_BYTES as int) ==> (result matches Ok(a)
                && a.spec_client_id() == client_id@ && a.spec_oauth_token() is None),
            !valid_credential(client_id@, MAX_CLIENT_ID_BYTES as int) ==> (result matches Err(e)
                && e.spec_kind() == SoundCloudErrorKind::InvalidAuthentication),
    {
        Self::with_oauth(client_id, None)
    }

    /// A client-ID policy with an optional bounded OAuth access token.
    pub fn with_oauth(client_id: String, oauth_token: Option<String>) -> (result: Result<
        Self,
        SoundCloudError,
    >)
        ensures
            ({
                &&& valid_credential(client_id@, MAX_CLIENT_ID_BYTES as int)
                &&& match oauth_token {
                    Some(t) => valid_credential(t@, MAX_OAUTH_TOKEN_BYTES as int),
                    None => true,
                }
            }) ==> (result matches Ok(a) && a.spec_client_id() == client_id@
                && a.spec_oauth_token() == opt_text(oauth_token)),
            !({
                &&& valid_credential(client_id@, MAX_CLIENT_ID_BYTES as int)
                &&& match oauth_token {
                    Some(t) => valid_credential(t@, MAX_OAUTH_TOKEN_BYTES as int),
                    None => true,
                }
            }) ==> (result matches Err(e) && e.spec_kind()
                == SoundCloudErrorKind::InvalidAuthentication),
    {
        let token_valid = match &oauth_token {
            Some(t) => is_valid_credential(t.as_str(), MAX_OAUTH_TOKEN_BYTES),
            None => true,
        };
        if !is_valid_credential(client_id.as_str(), MAX_CLIENT_ID_BYTES) || !token_valid {
            return Err(SoundCloudError::new(SoundCloudErrorKind::InvalidAuthentication));
        }
        Ok(SoundCloudAuthentication { client_id, oauth_token })
    }

    pub fn client_id(&self) -> (id: &str)
        ensures
            id@ == self.spec_client_id(),
    {
        self.client_id.as_str()
    }

    pub fn oauth_configured(&self) -> (configured: bool)
        ensures
            configured == self.spec_oauth_token() is Some,
    {
        self.oauth_token.is_some()
    }

    pub fn oauth_token(&self) -> (token: Option<&str>)
        ensures
            match token {
                Some(t) => self.spec_oauth_token() == Some(t@),
                None => self.spec_oauth_token() is None,
            },
    {
        match &self.oauth_token {
            Some(t) => Some(t.as_str()),
            None => None,
        }
    }
}

// ---------------------------------------------------------------------------------------------
// Options
// ---------------------------------------------------------------------------------------------

/// Bounded routing, control-API and metadata policy for SoundCloud.
#[derive(Clone, Debug, PartialEq, Eq)]
pub struct SoundCloudSourceOptions {
    pub http: RemoteHttpOptions,
    pub api_base_url: String,
    pub allow_search: bool,
    pub max_identifier_bytes: usize,
    pub max_metadata_string_bytes: usize,
    pub max_collection_tracks: usize,
    pub max_transcodings: usize,
    pub max_stream_url_bytes: usize,
    pub max_response_bytes: u64,
}

/// `s` with every trailing `/` removed, as `str::trim_end_matches('/')` does.
pub open spec fn trim_end_slashes(s: Seq<char>) -> Seq<char>
    decreases s.len(),
{
    if s.len() > 0 && s.last() == '/' {
        trim_end_slashes(s.drop_last())
    } else {
        s
    }
}

pub(crate) fn trim_end_slash_chars(s: &[char]) -> (result: Vec<char>)
    ensures
        result@ == trim_end_slashes(s@),
{
    let mut end = s.len();
    proof {
        assert(s@.take(end as int) =~= s@);
    }
    while end > 0 && s[end - 1] == '/'
        invariant
            end <= s@.len(),
            trim_end_slashes(s@) == trim_end_slashes(s@.take(end as int)),
        decreases end,
    {
        proof {
            assert(s@.take(end as int).drop_last() =~= s@.take(end - 1));
        }
        end = end - 1;
    }
    let out = copy_range(s, 0, end);
    proof {
        assert(out@ =~= s@.take(end as int));
    }
    out
}

fn concat_chars(a: &[char], b: &[char]) -> (result: Vec<char>)
    ensures
        result@ == a@ + b@,
{
    let mut out = copy_range(a, 0, a.len());
    let mut tail = copy_range(b, 0, b.len());
    let ghost x = out@;
    let ghost y = tail@;
    out.append(&mut tail);
    proof {
        assert(a@.subrange(0, a@.len() as int) =~= a@);
        assert(b@.subrange(0, b@.len() as int) =~= b@);
        assert(out@ =~= x + y);
    }
    out
}

impl SoundCloudSourceOptions {
    pub fn default_options() -> (options: Self)
        ensures
            crate::remote_http::is_default_remote_options(options.http),
            options.api_base_url@ == "https://api-v2.soundcloud.com"@,
            options.allow_search,
            options.max_identifier_bytes == 8 * 1024,
            options.max_metadata_string_bytes == 64 * 1024,
            options.max_collection_tracks == 600,
            options.max_transcodings == 32,
            options.max_stream_url_bytes == 64 * 1024,
            options.max_response_bytes == 2 * 1024 * 1024,
    {
        SoundCloudSourceOptions {
            http: RemoteHttpOptions::default_options(),
            api_base_url: copy_text("https://api-v2.soundcloud.com"),
            allow_search: true,
            max_identifier_bytes: 8 * 1024,
            max_metadata_string_bytes: 64 * 1024,
            max_collection_tracks: 600,
            max_transcodings: 32,
            max_stream_url_bytes: 64 * 1024,
            max_response_bytes: 2 * 1024 * 1024,
        }
    }

    /// The bounds hold and the resolve endpoint under the API base is a valid request URL.
    pub open spec fn is_valid(&self) -> bool {
        &&& self.api_base_url@.len() > 0
        &&& utf8_len(self.api_base_url@) <= MAX_API_BASE_URL_BYTES
        &&& 0 < self.max_identifier_bytes <= MAX_CONFIGURED_IDENTIFIER_BYTES
        &&& 0 < self.max_metadata_string_bytes <= MAX_CONFIGURED_METADATA_STRING_BYTES
        &&& 0 < self.max_collection_tracks <= MAX_CONFIGURED_COLLECTION_TRACKS
        &&& 0 < self.max_transcodings <= MAX_CONFIGURED_TRANSCODINGS
        &&& 0 < self.max_stream_url_bytes <= MAX_CONFIGURED_STREAM_URL_BYTES
        &&& 0 < self.max_response_bytes <= MAX_CONFIGURED_RESPONSE_BYTES
        &&& self.max_response_bytes <= self.http.max_response_bytes
        &&& crate::remote_http::spec_remote_uri(
            trim_end_slashes(self.api_base_url@) + "/resolve"@,
        ) is Some
    }

    pub fn validate(&self) -> (result: Result<(), SoundCloudError>)
        ensures
            self.is_valid() ==> result is Ok,
            !self.is_valid() ==> (result matches Err(e) && e.spec_kind()
                == SoundCloudErrorKind::InvalidOptions),
    {
        let base = chars_of(self.api_base_url.as_str());
        if base.len() == 0 || utf8_length(base.as_slice()) > MAX_API_BASE_URL_BYTES
            || self.max_identifier_bytes == 0 || self.max_identifier_bytes
            > MAX_CONFIGURED_IDENTIFIER_BYTES || self.max_metadata_string_bytes == 0
            || self.max_metadata_string_bytes > MAX_CONFIGURED_METADATA_STRING_BYTES
            || self.max_collection_tracks == 0 || self.max_collection_tracks
            > MAX_CONFIGURED_COLLECTION_TRACKS || self.max_transcodings == 0
            || self.max_transcodings > MAX_CONFIGURED_TRANSCODINGS || self.max_stream_url_bytes
            == 0 || self.max_stream_url_bytes > MAX_CONFIGURED_STREAM_URL_BYTES
            || self.max_response_bytes == 0 || self.max_response_bytes
            > MAX_CONFIGURED_RESPONSE_BYTES || self.max_response_bytes
            > self.http.max_response_bytes {
            return Err(SoundCloudError::new(SoundCloudErrorKind::InvalidOptions));
        }
        let trimmed = trim_end_slash_chars(base.as_slice());
        let endpoint = concat_chars(trimmed.as_slice(), chars_of("/resolve").as_slice());
        let url = string_from_chars(endpoint.as_slice());
        if crate::remote_http::parse_remote_uri(url.as_str()).is_err() {
            return Err(SoundCloudError::new(SoundCloudErrorKind::InvalidOptions));
        }
        Ok(())
    }
}

// ---------------------------------------------------------------------------------------------
// Routing
// ---------------------------------------------------------------------------------------------

/// A SoundCloud page to resolve (its canonical HTTPS URL), or a search query.
#[derive(Clone, Debug, PartialEq, Eq)]
pub enum SoundCloudRoute {
    Resolve(String),
    Search(String),
}

pub enum SoundCloudRouteView {
    Resolve(Seq<char>),
    Search(Seq<char>),
}

impl View for SoundCloudRoute {
    type V = SoundCloudRouteView;

    open spec fn view(&self) -> SoundCloudRouteView {
        match self {
            SoundCloudRoute::Resolve(u) => SoundCloudRouteView::Resolve(u@),
            SoundCloudRoute::Search(q) => SoundCloudRouteView::Search(q@),
        }
    }
}

pub open spec fn soundcloud_host(host: Seq<char>) -> bool {
    host == "soundcloud.com"@ || host == "www.soundcloud.com"@ || host == "on.soundcloud.com"@
}

pub open spec fn path_char(c: char) -> bool {
    ('a' <= c && c <= 'z') || ('A' <= c && c <= 'Z') || ('0' <= c && c <= '9') || c == '_' || c
        == '-' || c == '.' || c == '/'
}

pub open spec fn valid_path(path: Seq<char>) -> bool {
    forall|i: int| 0 <= i < path.len() ==> path_char(#[trigger] path[i])
}

/// The identifier without an `https://` or `http://` prefix.
pub open spec fn without_scheme(identifier: Seq<char>) -> Seq<char> {
    if has_prefix(identifier, "https://"@) {
        identifier.skip("https://"@.len() as int)
    } else if has_prefix(identifier, "http://"@) {
        identifier.skip("http://"@.len() as int)
    } else {
        identifier
    }
}

/// Routes `scsearch:<query>` to a search (when allowed) and a SoundCloud page URL (scheme
/// optional, query dropped) to its canonical HTTPS URL, without network access.
pub open spec fn spec_route_soundcloud(identifier: Seq<char>, options: SoundCloudSourceOptions) -> Option<
    SoundCloudRouteView,
> {
    if identifier.len() == 0 || utf8_len(identifier) > options.max_identifier_bytes {
        None
    } else if has_prefix(identifier, "scsearch:"@) {
        let query = trim(identifier.skip("scsearch:"@.len() as int));
        if options.allow_search && query.len() > 0 && utf8_len(query)
            <= options.max_metadata_string_bytes {
            Some(SoundCloudRouteView::Search(query))
        } else {
            None
        }
    } else if contains_char(identifier, '#') {
        None
    } else {
        let rest = without_scheme(identifier);
        let base = match split_once(rest, '?') {
            Some((head, _)) => head,
            None => rest,
        };
        match split_once(base, '/') {
            None => None,
            Some((host, raw_path)) => {
                let path = trim_slashes(raw_path);
                if contains_char(host, '@') || !soundcloud_host(host) || path.len() == 0
                    || utf8_len(path) > options.max_identifier_bytes || !valid_path(path) {
                    None
                } else {
                    Some(SoundCloudRouteView::Resolve("https://"@ + host + "/"@ + path))
                }
            },
        }
    }
}

/// A SoundCloud page URL routes to a resolve request for itself: on `soundcloud.com`,
/// `www.soundcloud.com` or `on.soundcloud.com`, a non-empty path of ASCII letters, digits, `_`,
/// `-`, `.` and `/` that neither starts nor ends with `/`, within the identifier byte bound.
pub proof fn law_page_urls_route_to_resolve(host: Seq<char>, path: Seq<char>, options: SoundCloudSourceOptions)
    requires
        host == "soundcloud.com"@ || host == "www.soundcloud.com"@ || host == "on.soundcloud.com"@,
        path.len() > 0,
        path[0] != '/',
        path.last() != '/',
        forall|i: int|
            0 <= i < path.len() ==> ('a' <= #[trigger] path[i] <= 'z') || ('A' <= path[i] <= 'Z')
                || ('0' <= path[i] <= '9') || path[i] == '_' || path[i] == '-' || path[i] == '.'
                || path[i] == '/',
        ("https://"@ + host + "/"@ + path).len() <= options.max_identifier_bytes,
    ensures
        spec_route_soundcloud("https://"@ + host + "/"@ + path, options) == Some(
            SoundCloudRouteView::Resolve("https://"@ + host + "/"@ + path),
        ),
{
    reveal_strlit("https://");
    reveal_strlit("http://");
    reveal_strlit("scsearch:");
    reveal_strlit("soundcloud.com");
    reveal_strlit("www.soundcloud.com");
    reveal_strlit("on.soundcloud.com");
    reveal_strlit("/");
    let rest = host + "/"@ + path;
    let id = "https://"@ + rest;
    assert(id =~= "https://"@ + host + "/"@ + path);
    assert forall|i: int| 0 <= i < host.len() implies ('a' <= #[trigger] host[i] <= 'z') || host[i]
        == '.' by {}
    assert forall|i: int| 0 <= i < rest.len() implies #[trigger] rest[i] != '#' && rest[i] != '?'
        && rest[i] <= '\u{7f}' && (i < host.len() ==> rest[i] != '/') by {
        if i < host.len() {
            assert(rest[i] == host[i]);
        } else if i > host.len() {
            assert(rest[i] == path[i - host.len() - 1]);
        }
    }
    assert forall|i: int| 0 <= i < id.len() implies #[trigger] id[i] != '#' && id[i] <= '\u{7f}' by {
        if i >= 8 {
            assert(id[i] == rest[i - 8]);
        }
    }
    assert(vstd::utf8::is_ascii_chars(id));
    vstd::utf8::is_ascii_chars_encode_utf8(id);
    assert(vstd::utf8::is_ascii_chars(path)) by {
        assert forall|i: int| 0 <= i < path.len() implies '\0' <= #[trigger] path[i] <= '\u{7f}' by {
            assert(rest[host.len() + 1 + i] == path[i]);
        }
    }
    vstd::utf8::is_ascii_chars_encode_utf8(path);
    crate::text::lemma_find_char(id, '#');
    assert(id.take(8) =~= "https://"@);
    assert(id.skip(8) =~= rest);
    assert(!has_prefix(id, "scsearch:"@)) by {
        assert(id[0] == 'h');
    }
    crate::text::lemma_find_char(rest, '?');
    crate::text::lemma_find_char(rest, '/');
    assert(rest[host.len() as int] == '/');
    assert(crate::text::find_char(rest, '/') == Some(host.len() as int));
    assert(rest.take(host.len() as int) =~= host);
    assert(rest.skip(host.len() as int + 1) =~= path);
    crate::text::lemma_find_char(host, '@');
    assert(trim_slashes(path) == path);
}

fn is_valid_path(path: &[char]) -> (valid: bool)
    ensures
        valid == valid_path(path@),
{
    let mut i: usize = 0;
    while i < path.len()
        invariant
            i <= path@.len(),
            forall|j: int| 0 <= j < i ==> path_char(#[trigger] path@[j]),
        decreases path@.len() - i,
    {
        let c = path[i];
        if !(('a' <= c && c <= 'z') || ('A' <= c && c <= 'Z') || ('0' <= c && c <= '9') || c == '_'
            || c == '-' || c == '.' || c == '/') {
            return false;
        }
        i = i + 1;
    }
    true
}

pub(crate) fn strip_scheme(identifier: &[char]) -> (rest: Vec<char>)
    ensures
        rest@ == without_scheme(identifier@),
{
    let https = chars_of("https://");
    let http = chars_of("http://");
    if starts_with(identifier, https.as_slice()) {
        let rest = copy_range(identifier, https.len(), identifier.len());
        proof {
            assert(rest@ =~= identifier@.skip("https://"@.len() as int));
        }
        rest
    } else if starts_with(identifier, http.as_slice()) {
        let rest = copy_range(identifier, http.len(), identifier.len());
        proof {
            assert(rest@ =~= identifier@.skip("http://"@.len() as int));
        }
        rest
    } else {
        let rest = copy_range(identifier, 0, identifier.len());
        proof {
            assert(rest@ =~= identifier@);
        }
        rest
    }
}

/// Routes a bounded identifier without network access.
pub fn route_soundcloud_identifier(identifier: &str, options: &SoundCloudSourceOptions) -> (route:
    Option<SoundCloudRoute>)
    ensures
        match spec_route_soundcloud(identifier@, *options) {
            Some(r) => route matches Some(x) && x@ == r,
            None => route is None,
        },
{
    let text = chars_of(identifier);
    if text.len() == 0 || utf8_length(text.as_slice()) > options.max_identifier_bytes {
        return None;
    }
    let search = chars_of("scsearch:");
    if starts_with(text.as_slice(), search.as_slice()) {
        let rest = copy_range(text.as_slice(), search.len(), text.len());
        proof {
            assert(rest@ =~= identifier@.skip("scsearch:"@.len() as int));
        }
        let query = trim_chars(rest.as_slice());
        if options.allow_search && query.len() > 0 && utf8_length(query.as_slice())
            <= options.max_metadata_string_bytes {
            return Some(SoundCloudRoute::Search(string_from_chars(query.as_slice())));
        }
        return None;
    }
    if contains(text.as_slice(), '#') {
        return None;
    }
    let rest = strip_scheme(text.as_slice());
    let base = match split_once_chars(rest.as_slice(), '?') {
        Some((head, _)) => head,
        None => rest,
    };
    let (host, raw_path) = split_once_chars(base.as_slice(), '/')?;
    let path = crate::bandcamp::trim_slash_chars(raw_path.as_slice());
    let known = seq_equal(host.as_slice(), chars_of("soundcloud.com").as_slice()) || seq_equal(
        host.as_slice(),
        chars_of("www.soundcloud.com").as_slice(),
    ) || seq_equal(host.as_slice(), chars_of("on.soundcloud.com").as_slice());
    if contains(host.as_slice(), '@') || !known || path.len() == 0 || utf8_length(path.as_slice())
        > options.max_identifier_bytes || !is_valid_path(path.as_slice()) {
        return None;
    }
    let mut url = concat_chars(chars_of("https://").as_slice(), host.as_slice());
    url = concat_chars(url.as_slice(), chars_of("/").as_slice());
    url = concat_chars(url.as_slice(), path.as_slice());
    Some(SoundCloudRoute::Resolve(string_from_chars(url.as_slice())))
}

// ---------------------------------------------------------------------------------------------
// Playback URLs
// ---------------------------------------------------------------------------------------------

/// A transcoding URL with its MIME type and delivery protocol.
#[derive(Clone, Debug, PartialEq, Eq)]
pub struct SoundCloudPlaybackUrl {
    url: String,
    mime_type: String,
    protocol: String,
}

impl SoundCloudPlaybackUrl {
    pub closed spec fn spec_url(&self) -> Seq<char> {
        self.url@
    }

    pub closed spec fn spec_mime_type(&self) -> Seq<char> {
        self.mime_type@
    }

    pub closed spec fn spec_protocol(&self) -> Seq<char> {
        self.protocol@
    }

    pub fn as_str(&self) -> (url: &str)
        ensures
            url@ == self.spec_url(),
    {
        self.url.as_str()
    }

    pub fn mime_type(&self) -> (mime_type: &str)
        ensures
            mime_type@ == self.spec_mime_type(),
    {
        self.mime_type.as_str()
    }

    pub fn protocol(&self) -> (protocol: &str)
        ensures
            protocol@ == self.spec_protocol(),
    {
        self.protocol.as_str()
    }

    pub fn duplicate(&self) -> (copy: Self)
        ensures
            copy.spec_url() == self.spec_url(),
            copy.spec_mime_type() == self.spec_mime_type(),
            copy.spec_protocol() == self.spec_protocol(),
    {
        SoundCloudPlaybackUrl {
            url: copy_text(self.url.as_str()),
            mime_type: copy_text(self.mime_type.as_str()),
            protocol: copy_text(self.protocol.as_str()),
        }
    }
}

/// Bytes that `application/x-www-form-urlencoded` serialization keeps as they are.
pub open spec fn form_unchanged(b: u8) -> bool {
    b == 42 || b == 45 || b == 46 || (48 <= b && b <= 57) || (65 <= b && b <= 90) || b == 95 || (
    97 <= b && b <= 122)
}

pub open spec fn hex_upper(n: u8) -> char {
    if n < 10 {
        (n + 48) as char
    } else {
        (n + 55) as char
    }
}

/// One byte serialized: kept as is, a space as `+`, anything else as `%XX` in upper case.
pub open spec fn form_encode_byte(b: u8) -> Seq<char> {
    if form_unchanged(b) {
        seq![b as char]
    } else if b == 32 {
        seq!['+']
    } else {
        seq!['%', hex_upper(b / 16), hex_upper(b % 16)]
    }
}

pub open spec fn form_encode(bytes: Seq<u8>) -> Seq<char>
    decreases bytes.len(),
{
    if bytes.len() == 0 {
        Seq::empty()
    } else {
        form_encode_byte(bytes[0]) + form_encode(bytes.drop_first())
    }
}

/// Calls `form_urlencoded::byte_serialize` on the UTF-8 bytes of a text and collects the pieces.
/// The crate's source keeps ASCII letters, digits and `*-._`, writes a space as `+`, and writes
/// every other byte as `%` and two upper-case hexadecimal digits, which the contract states.
#[verifier::external_body]
pub(crate) fn form_url_encode(text: &str) -> (encoded: String)
    ensures
        encoded@ == form_encode(encode_utf8(text@)),
{
    form_urlencoded::byte_serialize(text.as_bytes()).collect()
}

/// The playback URL with the client ID appended as a query parameter.
pub open spec fn spec_with_client_id(url: Seq<char>, client_id: Seq<char>) -> Seq<char> {
    url + (if contains_char(url, '?') {
        seq!['&']
    } else {
        seq!['?']
    }) + "client_id="@ + form_encode(encode_utf8(client_id))
}

/// Appends the client ID to a transcoding URL; a result over `limit` bytes is an invalid
/// response.
pub fn append_client_id(playback: &SoundCloudPlaybackUrl, client_id: &str, limit: usize) -> (result:
    Result<SoundCloudPlaybackUrl, SoundCloudError>)
    ensures
        utf8_len(spec_with_client_id(playback.spec_url(), client_id@)) <= limit ==> (result matches Ok(
            p,
        ) && p.spec_url() == spec_with_client_id(playback.spec_url(), client_id@)
            && p.spec_mime_type() == playback.spec_mime_type() && p.spec_protocol()
            == playback.spec_protocol()),
        utf8_len(spec_with_client_id(playback.spec_url(), client_id@)) > limit ==> (result matches Err(
            e,
        ) && e.spec_kind() == SoundCloudErrorKind::InvalidResponse),
{
    let url = chars_of(playback.url.as_str());
    let separator = if contains(url.as_slice(), '?') {
        chars_of("&")
    } else {
        chars_of("?")
    };
    proof {
        reveal_strlit("&");
        reveal_strlit("?");
        assert(separator@ == (if contains_char(url@, '?') {
            seq!['&']
        } else {
            seq!['?']
        }));
    }
    let encoded = form_url_encode(client_id);
    let mut full = concat_chars(url.as_slice(), separator.as_slice());
    full = concat_chars(full.as_slice(), chars_of("client_id=").as_slice());
    full = concat_chars(full.as_slice(), chars_of(encoded.as_str()).as_slice());
    if utf8_length(full.as_slice()) > limit {
        return Err(invalid_response());
    }
    Ok(
        SoundCloudPlaybackUrl {
            url: string_from_chars(full.as_slice()),
            mime_type: copy_text(playback.mime_type.as_str()),
            protocol: copy_text(playback.protocol.as_str()),
        },
    )
}

} // verus!

verus! {

// ---------------------------------------------------------------------------------------------
// Track and playlist documents
// ---------------------------------------------------------------------------------------------

/// The access level of a track.
#[derive(Clone, Copy, Debug, PartialEq, Eq, Structural)]
pub enum SoundCloudAccess {
    Playable,
    Preview,
    Blocked,
}

/// One entry of `media.transcodings`: its `url`, whether it has a `format` object, and the
/// format's `protocol` and `mime_type`, each when it is a string.
#[derive(Clone, Debug, PartialEq, Eq)]
pub struct SoundCloudTranscoding {
    pub url: Option<String>,
    pub has_format: bool,
    pub protocol: Option<String>,
    pub mime_type: Option<String>,
}

/// A track `id` as the API gives it: a number or a string.
#[derive(Clone, Debug, PartialEq, Eq)]
pub enum SoundCloudId {
    Number(u64),
    Text(String),
}

/// The fields of a track object: `id`, `title`, `user.username`, `duration` (milliseconds),
/// `permalink_url`, `access`, `artwork_url`, `isrc` (each when it has the expected JSON type),
/// and the `media.transcodings` list when it is an array.
#[derive(Clone, Debug, PartialEq, Eq)]
pub struct SoundCloudTrackData {
    pub id: Option<SoundCloudId>,
    pub title: Option<String>,
    pub username: Option<String>,
    pub duration_millis: Option<u64>,
    pub permalink_url: Option<String>,
    pub access: Option<String>,
    pub artwork_url: Option<String>,
    pub isrc: Option<String>,
    pub transcodings: Option<Vec<SoundCloudTranscoding>>,
}

/// A track of a SoundCloud response, with its access level and selected transcoding.
#[derive(Debug, PartialEq, Eq)]
pub struct SoundCloudSourceTrack {
    pub info: crate::track::TrackInfo,
    pub access: SoundCloudAccess,
    pub playback: Option<SoundCloudPlaybackUrl>,
}

pub struct TranscodingView {
    pub url: Option<Seq<char>>,
    pub has_format: bool,
    pub protocol: Option<Seq<char>>,
    pub mime_type: Option<Seq<char>>,
}

pub open spec fn transcodings_view(v: Seq<SoundCloudTranscoding>) -> Seq<TranscodingView> {
    v.map_values(
        |t: SoundCloudTranscoding|
            TranscodingView {
                url: opt_text(t.url),
                has_format: t.has_format,
                protocol: opt_text(t.protocol),
                mime_type: opt_text(t.mime_type),
            },
    )
}

/// A playback candidate: URL, MIME type and protocol.
pub type PlaybackTriple = (Seq<char>, Seq<char>, Seq<char>);

/// Reads the transcodings in order: each needs a bounded URL, a format, a protocol of at most 32
/// bytes and a MIME type of at most 128 bytes. The first progressive `audio/mpeg` transcoding
/// wins; otherwise the first transcoding. The outer `None` is an invalid response.
pub open spec fn playback_fold(
    fallback: Option<PlaybackTriple>,
    ts: Seq<TranscodingView>,
    limit: int,
) -> Option<Option<PlaybackTriple>>
    decreases ts.len(),
{
    if ts.len() == 0 {
        Some(fallback)
    } else {
        let t = ts[0];
        match (
            spec_bounded_string(t.url, limit),
            spec_bounded_string(t.protocol, 32),
            spec_bounded_string(t.mime_type, 128),
        ) {
            (Some(url), Some(protocol), Some(mime)) => if !t.has_format {
                None
            } else if protocol == "progressive"@ && has_prefix(mime, "audio/mpeg"@) {
                Some(Some((url, mime, protocol)))
            } else {
                playback_fold(
                    if fallback is None {
                        Some((url, mime, protocol))
                    } else {
                        fallback
                    },
                    ts.drop_first(),
                    limit,
                )
            },
            _ => None,
        }
    }
}

pub open spec fn spec_parse_playback(
    transcodings: Option<Seq<TranscodingView>>,
    options: SoundCloudSourceOptions,
) -> Option<Option<PlaybackTriple>> {
    match transcodings {
        None => Some(None),
        Some(ts) => if ts.len() > options.max_transcodings {
            None
        } else {
            playback_fold(None, ts, options.max_stream_url_bytes as int)
        },
    }
}

pub open spec fn playback_view(p: Option<SoundCloudPlaybackUrl>) -> Option<PlaybackTriple> {
    match p {
        Some(u) => Some((u.spec_url(), u.spec_mime_type(), u.spec_protocol())),
        None => None,
    }
}

fn bounded(value: &Option<String>, limit: usize) -> (result: Result<String, SoundCloudError>)
    ensures
        match spec_bounded_string(opt_text(*value), limit as int) {
            Some(s) => result matches Ok(r) && r@ == s,
            None => result matches Err(e) && e.spec_kind() == SoundCloudErrorKind::InvalidResponse,
        },
{
    let v = match value {
        Some(v) => v.as_str(),
        None => {
            return Err(invalid_response());
        },
    };
    match crate::bandcamp::bounded_string(Some(v), limit) {
        Ok(s) => Ok(s),
        Err(_) => Err(invalid_response()),
    }
}

/// Selects the playback transcoding of a track.
pub fn parse_playback(
    transcodings: &Option<Vec<SoundCloudTranscoding>>,
    options: &SoundCloudSourceOptions,
) -> (result: Result<Option<SoundCloudPlaybackUrl>, SoundCloudError>)
    ensures
        match spec_parse_playback(
            match transcodings {
                Some(v) => Some(transcodings_view(v@)),
                None => None,
            },
            *options,
        ) {
            Some(choice) => result matches Ok(p) && playback_view(p) == choice,
            None => result matches Err(e) && e.spec_kind() == SoundCloudErrorKind::InvalidResponse,
        },
{
    let list = match transcodings {
        Some(v) => v,
        None => {
            return Ok(None);
        },
    };
    if list.len() > options.max_transcodings {
        return Err(invalid_response());
    }
    let ghost all = transcodings_view(list@);
    let ghost limit = options.max_stream_url_bytes as int;
    let mut fallback: Option<SoundCloudPlaybackUrl> = None;
    let mut i: usize = 0;
    proof {
        assert(all.skip(0) =~= all);
    }
    while i < list.len()
        invariant
            i <= list@.len(),
            all == transcodings_view(list@),
            limit == options.max_stream_url_bytes as int,
            spec_parse_playback(
                match transcodings {
                    Some(v) => Some(transcodings_view(v@)),
                    None => None,
                },
                *options,
            ) == playback_fold(None, all, limit),
            playback_fold(None, all, limit) == playback_fold(
                playback_view(fallback),
                all.skip(i as int),
                limit,
            ),
        decreases list@.len() - i,
    {
        proof {
            assert(all.skip(i as int)[0] == all[i as int]);
            assert(all.skip(i as int).drop_first() =~= all.skip(i + 1));
        }
        let t = &list[i];
        let url = bounded(&t.url, options.max_stream_url_bytes);
        let protocol = bounded(&t.protocol, 32);
        let mime_type = bounded(&t.mime_type, 128);
        let (url, protocol, mime_type) = match (url, protocol, mime_type) {
            (Ok(u), Ok(p), Ok(m)) => (u, p, m),
            _ => {
                return Err(invalid_response());
            },
        };
        if !t.has_format {
            return Err(invalid_response());
        }
        let progressive = seq_equal(
            chars_of(protocol.as_str()).as_slice(),
            chars_of("progressive").as_slice(),
        ) && starts_with(chars_of(mime_type.as_str()).as_slice(), chars_of("audio/mpeg").as_slice());
        let candidate = SoundCloudPlaybackUrl { url, mime_type, protocol };
        if progressive {
            return Ok(Some(candidate));
        }
        if fallback.is_none() {
            fallback = Some(candidate);
        }
        i = i + 1;
    }
    proof {
        assert(all.skip(i as int) =~= Seq::<TranscodingView>::empty());
    }
    Ok(fallback)
}

/// Every `from` replaced by `to`, scanning left to right, as `str::replace` does.
pub open spec fn replace_all(s: Seq<char>, from: Seq<char>, to: Seq<char>) -> Seq<char>
    decreases s.len(),
{
    if s.len() == 0 || from.len() == 0 {
        s
    } else if has_prefix(s, from) {
        to + replace_all(s.skip(from.len() as int), from, to)
    } else {
        seq![s[0]] + replace_all(s.drop_first(), from, to)
    }
}

pub(crate) fn replace_text(s: &[char], from: &str, to: &str) -> (result: Vec<char>)
    requires
        from@.len() > 0,
    ensures
        result@ == replace_all(s@, from@, to@),
{
    let pattern = chars_of(from);
    let replacement = chars_of(to);
    let mut out: Vec<char> = Vec::new();
    let mut i: usize = 0;
    proof {
        assert(s@.skip(0) =~= s@);
    }
    while i < s.len()
        invariant
            i <= s@.len(),
            pattern@ == from@,
            replacement@ == to@,
            from@.len() > 0,
            out@ + replace_all(s@.skip(i as int), from@, to@) == replace_all(s@, from@, to@),
        decreases s@.len() - i,
    {
        let rest = copy_range(s, i, s.len());
        proof {
            assert(rest@ =~= s@.skip(i as int));
        }
        if starts_with(rest.as_slice(), pattern.as_slice()) {
            let ghost before = out@;
            let mut piece = copy_range(replacement.as_slice(), 0, replacement.len());
            out.append(&mut piece);
            proof {
                assert(replacement@.subrange(0, replacement@.len() as int) =~= replacement@);
                assert(s@.skip(i as int).skip(from@.len() as int) =~= s@.skip(i + from@.len()));
                assert(out@ =~= before + to@);
            }
            i = i + pattern.len();
        } else {
            let ghost before = out@;
            out.push(s[i]);
            proof {
                assert(s@.skip(i as int).drop_first() =~= s@.skip(i + 1));
                assert(out@ =~= before + seq![s@[i as int]]);
            }
            i = i + 1;
        }
    }
    proof {
        assert(s@.skip(i as int) =~= Seq::<char>::empty());
        assert(out@ + Seq::<char>::empty() =~= out@);
    }
    out
}

/// An optional artwork URL: bounded, with `-large` replaced by `-t500x500`.
pub open spec fn spec_artwork(value: Option<Seq<char>>, limit: int) -> Option<Option<Seq<char>>> {
    match value {
        None => Some(None),
        Some(v) => match spec_bounded_string(Some(v), limit) {
            None => None,
            Some(b) => Some(Some(replace_all(b, "-large"@, "-t500x500"@))),
        },
    }
}

pub fn artwork(value: &Option<String>, options: &SoundCloudSourceOptions) -> (result: Result<
    Option<String>,
    SoundCloudError,
>)
    ensures
        match spec_artwork(opt_text(*value), options.max_metadata_string_bytes as int) {
            Some(a) => result matches Ok(r) && opt_text(r) == a,
            None => result matches Err(e) && e.spec_kind() == SoundCloudErrorKind::InvalidResponse,
        },
{
    match value {
        None => Ok(None),
        Some(_) => {
            let b = bounded(value, options.max_metadata_string_bytes)?;
            proof {
                reveal_strlit("-large");
            }
            let replaced = replace_text(chars_of(b.as_str()).as_slice(), "-large", "-t500x500");
            Ok(Some(string_from_chars(replaced.as_slice())))
        },
    }
}

/// A bounded optional string: absent stays absent, present must be bounded.
pub open spec fn spec_bounded_optional(value: Option<Seq<char>>, limit: int) -> Option<
    Option<Seq<char>>,
> {
    match value {
        None => Some(None),
        Some(v) => match spec_bounded_string(Some(v), limit) {
            None => None,
            Some(b) => Some(Some(b)),
        },
    }
}

fn bounded_optional(value: &Option<String>, limit: usize) -> (result: Result<
    Option<String>,
    SoundCloudError,
>)
    ensures
        match spec_bounded_optional(opt_text(*value), limit as int) {
            Some(a) => result matches Ok(r) && opt_text(r) == a,
            None => result matches Err(e) && e.spec_kind() == SoundCloudErrorKind::InvalidResponse,
        },
{
    match value {
        None => Ok(None),
        Some(_) => Ok(Some(bounded(value, limit)?)),
    }
}

pub open spec fn id_text(id: Option<SoundCloudId>) -> Option<Seq<char>> {
    match id {
        Some(SoundCloudId::Number(n)) => Some(crate::track::decimal_text(n as nat)),
        Some(SoundCloudId::Text(t)) => Some(t@),
        None => None,
    }
}

pub open spec fn spec_access(access: Option<Seq<char>>) -> Option<SoundCloudAccess> {
    match access {
        None => Some(SoundCloudAccess::Playable),
        Some(a) => if a == "playable"@ {
            Some(SoundCloudAccess::Playable)
        } else if a == "preview"@ {
            Some(SoundCloudAccess::Preview)
        } else if a == "blocked"@ {
            Some(SoundCloudAccess::Blocked)
        } else {
            None
        },
    }
}

pub struct SoundCloudTrackView {
    pub info: crate::track::TrackInfoView,
    pub access: SoundCloudAccess,
    pub playback: Option<PlaybackTriple>,
}

pub open spec fn track_view(t: SoundCloudSourceTrack) -> SoundCloudTrackView {
    SoundCloudTrackView { info: t.info@, access: t.access, playback: playback_view(t.playback) }
}

/// The track that a track object describes, or `None` when the object is invalid.
pub open spec fn spec_parse_track(
    data: SoundCloudTrackData,
    source_url: Seq<char>,
    options: SoundCloudSourceOptions,
) -> Option<SoundCloudTrackView> {
    let meta = options.max_metadata_string_bytes as int;
    match (
        id_text(data.id),
        spec_bounded_string(opt_text(data.title), meta),
        spec_bounded_string(opt_text(data.username), meta),
        data.duration_millis,
        spec_bounded_optional(opt_text(data.permalink_url), meta),
        spec_access(opt_text(data.access)),
        spec_parse_playback(
            match data.transcodings {
                Some(v) => Some(transcodings_view(v@)),
                None => None,
            },
            options,
        ),
        spec_artwork(opt_text(data.artwork_url), meta),
        spec_bounded_optional(opt_text(data.isrc), meta),
    ) {
        (
            Some(id),
            Some(title),
            Some(author),
            Some(millis),
            Some(permalink),
            Some(access),
            Some(playback),
            Some(artwork_url),
            Some(isrc),
        ) => if id.len() == 0 || utf8_len(id) > options.max_identifier_bytes {
            None
        } else {
            Some(
                SoundCloudTrackView {
                    info: crate::track::TrackInfoView {
                        title,
                        author,
                        duration: millis * 1_000_000,
                        identifier: id,
                        is_stream: false,
                        uri: match permalink {
                            Some(p) => Some(p),
                            None => Some(source_url),
                        },
                        artwork_url,
                        isrc,
                    },
                    access,
                    playback,
                },
            )
        },
        _ => None,
    }
}

/// Reads one track object; `source_url` stands in for a missing permalink.
pub fn parse_track(data: &SoundCloudTrackData, source_url: &str, options: &SoundCloudSourceOptions) -> (result:
    Result<SoundCloudSourceTrack, SoundCloudError>)
    ensures
        match spec_parse_track(*data, source_url@, *options) {
            Some(t) => result matches Ok(r) && track_view(r) == t,
            None => result matches Err(e) && e.spec_kind() == SoundCloudErrorKind::InvalidResponse,
        },
{
    let meta = options.max_metadata_string_bytes;
    let id = match &data.id {
        Some(SoundCloudId::Number(n)) => crate::track::decimal_string(*n),
        Some(SoundCloudId::Text(t)) => copy_text(t.as_str()),
        None => {
            return Err(invalid_response());
        },
    };
    let title = bounded(&data.title, meta);
    let author = bounded(&data.username, meta);
    let permalink = bounded_optional(&data.permalink_url, meta);
    let access = match &data.access {
        None => Some(SoundCloudAccess::Playable),
        Some(a) => {
            let text = chars_of(a.as_str());
            if seq_equal(text.as_slice(), chars_of("playable").as_slice()) {
                Some(SoundCloudAccess::Playable)
            } else if seq_equal(text.as_slice(), chars_of("preview").as_slice()) {
                Some(SoundCloudAccess::Preview)
            } else if seq_equal(text.as_slice(), chars_of("blocked").as_slice()) {
                Some(SoundCloudAccess::Blocked)
            } else {
                None
            }
        },
    };
    let playback = parse_playback(&data.transcodings, options);
    let artwork_url = artwork(&data.artwork_url, options);
    let isrc = bounded_optional(&data.isrc, meta);
    match (title, author, data.duration_millis, permalink, access, playback, artwork_url, isrc) {
        (
            Ok(title),
            Ok(author),
            Some(millis),
            Ok(permalink),
            Some(access),
            Ok(playback),
            Ok(artwork_url),
            Ok(isrc),
        ) => {
            let id_chars = chars_of(id.as_str());
            if id_chars.len() == 0 || utf8_length(id_chars.as_slice())
                > options.max_identifier_bytes {
                return Err(invalid_response());
            }
            let uri = match permalink {
                Some(p) => Some(p),
                None => Some(copy_text(source_url)),
            };
            Ok(
                SoundCloudSourceTrack {
                    info: crate::track::TrackInfo {
                        title,
                        author,
                        duration: crate::duration::Duration::from_millis(millis),
                        identifier: id,
                        is_stream: false,
                        uri,
                        artwork_url,
                        isrc,
                    },
                    access,
                    playback,
                },
            )
        },
        _ => Err(invalid_response()),
    }
}

pub open spec fn track_data_seq(v: Seq<SoundCloudTrackData>) -> Seq<SoundCloudTrackData> {
    v
}

/// The tracks of a collection in order, blocked tracks left out; `None` when any track object
/// is invalid.
pub open spec fn tracks_fold(
    acc: Seq<SoundCloudTrackView>,
    ds: Seq<SoundCloudTrackData>,
    source_url: Seq<char>,
    options: SoundCloudSourceOptions,
) -> Option<Seq<SoundCloudTrackView>>
    decreases ds.len(),
{
    if ds.len() == 0 {
        Some(acc)
    } else {
        match spec_parse_track(ds[0], source_url, options) {
            None => None,
            Some(t) => tracks_fold(
                if t.access == SoundCloudAccess::Blocked {
                    acc
                } else {
                    acc.push(t)
                },
                ds.drop_first(),
                source_url,
                options,
            ),
        }
    }
}

pub open spec fn tracks_view(v: Seq<SoundCloudSourceTrack>) -> Seq<SoundCloudTrackView> {
    v.map_values(|t: SoundCloudSourceTrack| track_view(t))
}

/// Reads a bounded collection of track objects, keeping the tracks that are not blocked.
pub fn collect_tracks(
    collection: &Vec<SoundCloudTrackData>,
    source_url: &str,
    options: &SoundCloudSourceOptions,
) -> (result: Result<Vec<SoundCloudSourceTrack>, SoundCloudError>)
    ensures
        collection@.len() > options.max_collection_tracks ==> (result matches Err(e)
            && e.spec_kind() == SoundCloudErrorKind::InvalidResponse),
        collection@.len() <= options.max_collection_tracks ==> match tracks_fold(
            Seq::empty(),
            collection@,
            source_url@,
            *options,
        ) {
            Some(ts) => result matches Ok(v) && tracks_view(v@) == ts,
            None => result matches Err(e) && e.spec_kind() == SoundCloudErrorKind::InvalidResponse,
        },
{
    if collection.len() > options.max_collection_tracks {
        return Err(invalid_response());
    }
    let mut tracks: Vec<SoundCloudSourceTrack> = Vec::new();
    let mut i: usize = 0;
    proof {
        assert(collection@.skip(0) =~= collection@);
        assert(tracks_view(tracks@) =~= Seq::<SoundCloudTrackView>::empty());
    }
    while i < collection.len()
        invariant
            i <= collection@.len(),
            tracks_fold(Seq::empty(), collection@, source_url@, *options) == tracks_fold(
                tracks_view(tracks@),
                collection@.skip(i as int),
                source_url@,
                *options,
            ),
        decreases collection@.len() - i,
    {
        proof {
            assert(collection@.skip(i as int)[0] == collection@[i as int]);
            assert(collection@.skip(i as int).drop_first() =~= collection@.skip(i + 1));
        }
        let track = parse_track(&collection[i], source_url, options)?;
        if track.access != SoundCloudAccess::Blocked {
            let ghost before = tracks_view(tracks@);
            let ghost added = track_view(track);
            tracks.push(track);
            proof {
                assert(tracks_view(tracks@) =~= before.push(added));
            }
        }
        i = i + 1;
    }
    proof {
        assert(collection@.skip(i as int) =~= Seq::<SoundCloudTrackData>::empty());
    }
    Ok(tracks)
}

/// A playlist of a SoundCloud response.
#[derive(Debug, PartialEq, Eq)]
pub struct SoundCloudSourcePlaylist {
    pub name: String,
    pub tracks: Vec<SoundCloudSourceTrack>,
    pub selected_track: Option<usize>,
    pub is_search_result: bool,
    pub uri: Option<String>,
    pub artwork_url: Option<String>,
    pub author: Option<String>,
}

/// An item of a SoundCloud response.
#[derive(Debug, PartialEq, Eq)]
pub enum SoundCloudSourceItem {
    Track(SoundCloudSourceTrack),
    Playlist(SoundCloudSourcePlaylist),
}

/// The fields of a playlist object: its track list (`tracks`, else `collection`, when an
/// array), `title`, `permalink_url`, `artwork_url` and `user.username`.
#[derive(Clone, Debug, PartialEq, Eq)]
pub struct SoundCloudPlaylistData {
    pub tracks: Option<Vec<SoundCloudTrackData>>,
    pub title: Option<String>,
    pub permalink_url: Option<String>,
    pub artwork_url: Option<String>,
    pub username: Option<String>,
}

/// The playlist's checks hold: a bounded list of valid track objects and, when a track is left,
/// a bounded title, permalink, artwork and author.
pub open spec fn spec_playlist_ok(data: SoundCloudPlaylistData, options: SoundCloudSourceOptions) -> bool {
    let meta = options.max_metadata_string_bytes as int;
    match data.tracks {
        None => false,
        Some(list) => list@.len() <= options.max_collection_tracks && match tracks_fold(
            Seq::empty(),
            list@,
            "soundcloud:playlist"@,
            options,
        ) {
            None => false,
            Some(ts) => ts.len() == 0 || (spec_bounded_string(opt_text(data.title), meta) is Some
                && spec_bounded_optional(opt_text(data.permalink_url), meta) is Some
                && spec_artwork(opt_text(data.artwork_url), meta) is Some && spec_bounded_optional(
                opt_text(data.username),
                meta,
            ) is Some),
        },
    }
}

/// Reads a playlist object; `None` when none of its tracks is playable or previewable.
pub fn parse_playlist(
    data: &SoundCloudPlaylistData,
    is_search_result: bool,
    options: &SoundCloudSourceOptions,
) -> (result: Result<Option<SoundCloudSourcePlaylist>, SoundCloudError>)
    ensures
        spec_playlist_ok(*data, *options) ==> ({
            let ts = tracks_fold(
                Seq::empty(),
                data.tracks->0@,
                "soundcloud:playlist"@,
                *options,
            )->0;
            let meta = options.max_metadata_string_bytes as int;
            if ts.len() == 0 {
                result matches Ok(None)
            } else {
                result matches Ok(Some(p)) && tracks_view(p.tracks@) == ts && Some(p.name@)
                    == spec_bounded_string(opt_text(data.title), meta) && p.selected_track is None
                    && p.is_search_result == is_search_result && Some(opt_text(p.uri))
                    == spec_bounded_optional(opt_text(data.permalink_url), meta) && Some(
                    opt_text(p.artwork_url),
                ) == spec_artwork(opt_text(data.artwork_url), meta) && Some(opt_text(p.author))
                    == spec_bounded_optional(opt_text(data.username), meta)
            }
        }),
        !spec_playlist_ok(*data, *options) ==> (result matches Err(e) && e.spec_kind()
            == SoundCloudErrorKind::InvalidResponse),
{
    let list = match &data.tracks {
        Some(l) => l,
        None => {
            return Err(invalid_response());
        },
    };
    let tracks = collect_tracks(list, "soundcloud:playlist", options)?;
    if tracks.len() == 0 {
        return Ok(None);
    }
    let meta = options.max_metadata_string_bytes;
    let name = bounded(&data.title, meta)?;
    let uri = bounded_optional(&data.permalink_url, meta)?;
    let artwork_url = artwork(&data.artwork_url, options)?;
    let author = bounded_optional(&data.username, meta)?;
    Ok(
        Some(
            SoundCloudSourcePlaylist {
                name,
                tracks,
                selected_track: None,
                is_search_result,
                uri,
                artwork_url,
                author,
            },
        ),
    )
}

/// Reads a search answer's `collection` (when an array) into a search-result playlist named
/// after the query; `None` when no track is left.
pub fn parse_search(
    collection: &Option<Vec<SoundCloudTrackData>>,
    query: &str,
    options: &SoundCloudSourceOptions,
) -> (result: Result<Option<SoundCloudSourceItem>, SoundCloudError>)
    ensures
        match collection {
            None => result matches Err(e) && e.spec_kind() == SoundCloudErrorKind::InvalidResponse,
            Some(list) => if list@.len() > options.max_collection_tracks {
                result matches Err(e) && e.spec_kind() == SoundCloudErrorKind::InvalidResponse
            } else {
                match tracks_fold(Seq::empty(), list@, "soundcloud:search"@, *options) {
                    None => result matches Err(e) && e.spec_kind()
                        == SoundCloudErrorKind::InvalidResponse,
                    Some(ts) => if ts.len() == 0 {
                        result matches Ok(None)
                    } else {
                        result matches Ok(Some(SoundCloudSourceItem::Playlist(p))) && tracks_view(
                            p.tracks@,
                        ) == ts && p.name@ == "SoundCloud search: "@ + query@
                            && p.selected_track is None && p.is_search_result && p.uri is None
                            && p.artwork_url is None && p.author is None
                    },
                }
            },
        },
{
    let list = match collection {
        Some(l) => l,
        None => {
            return Err(invalid_response());
        },
    };
    let tracks = collect_tracks(list, "soundcloud:search", options)?;
    if tracks.len() == 0 {
        return Ok(None);
    }
    let name = concat_chars(chars_of("SoundCloud search: ").as_slice(), chars_of(query).as_slice());
    Ok(
        Some(
            SoundCloudSourceItem::Playlist(
                SoundCloudSourcePlaylist {
                    name: string_from_chars(name.as_slice()),
                    tracks,
                    selected_track: None,
                    is_search_result: true,
                    uri: None,
                    artwork_url: None,
                    author: None,
                },
            ),
        ),
    )
}

/// A resolve answer: a track, a playlist, or an error object.
#[derive(Clone, Debug, PartialEq, Eq)]
pub enum SoundCloudResolved {
    Track(SoundCloudTrackData),
    Playlist(SoundCloudPlaylistData),
    Error,
    Other,
}

/// Reads a resolve answer by its `kind`: a track or playlist item, unavailable for an error
/// object, and an invalid response for anything else.
pub fn parse_resolved(
    resolved: &SoundCloudResolved,
    source_url: &str,
    options: &SoundCloudSourceOptions,
) -> (result: Result<Option<SoundCloudSourceItem>, SoundCloudError>)
    ensures
        match resolved {
            SoundCloudResolved::Track(data) => match spec_parse_track(*data, source_url@, *options) {
                Some(t) => result matches Ok(Some(SoundCloudSourceItem::Track(r))) && track_view(r)
                    == t,
                None => result matches Err(e) && e.spec_kind()
                    == SoundCloudErrorKind::InvalidResponse,
            },
            SoundCloudResolved::Playlist(data) => spec_playlist_ok(*data, *options) == result is Ok,
            SoundCloudResolved::Error => result matches Err(e) && e.spec_kind()
                == SoundCloudErrorKind::Unavailable,
            SoundCloudResolved::Other => result matches Err(e) && e.spec_kind()
                == SoundCloudErrorKind::InvalidResponse,
        },
{
    match resolved {
        SoundCloudResolved::Track(data) => {
            let track = parse_track(data, source_url, options)?;
            Ok(Some(SoundCloudSourceItem::Track(track)))
        },
        SoundCloudResolved::Playlist(data) => match parse_playlist(data, false, options)? {
            Some(p) => Ok(Some(SoundCloudSourceItem::Playlist(p))),
            None => Ok(None),
        },
        SoundCloudResolved::Error => Err(SoundCloudError::new(SoundCloudErrorKind::Unavailable)),
        SoundCloudResolved::Other => Err(invalid_response()),
    }
}

} // verus!

verus! {

// ---------------------------------------------------------------------------------------------
// Playback checks
// ---------------------------------------------------------------------------------------------

/// Only a progressive transcoding of an `audio/` MIME type can be opened.
pub fn check_transcoding(playback: &SoundCloudPlaybackUrl) -> (result: Result<
    (),
    SoundCloudPlaybackError,
>)
    ensures
        playback.spec_protocol() == "progressive"@ && has_prefix(playback.spec_mime_type(), "audio/"@)
            ==> result is Ok,
        !(playback.spec_protocol() == "progressive"@ && has_prefix(
            playback.spec_mime_type(),
            "audio/"@,
        )) ==> (result matches Err(e) && e.spec_kind()
            == SoundCloudPlaybackErrorKind::IncompatibleFormat),
{
    if !seq_equal(
        chars_of(playback.protocol.as_str()).as_slice(),
        chars_of("progressive").as_slice(),
    ) || !starts_with(
        chars_of(playback.mime_type.as_str()).as_slice(),
        chars_of("audio/").as_slice(),
    ) {
        return Err(SoundCloudPlaybackError::new(SoundCloudPlaybackErrorKind::IncompatibleFormat));
    }
    Ok(())
}

pub open spec fn playable_container(container: crate::media::Container) -> bool {
    container == crate::media::Container::Mp3 || container == crate::media::Container::Mp4
        || container == crate::media::Container::Ogg || container == crate::media::Container::WebM
        || container == crate::media::Container::Matroska
}

pub open spec fn playable_codec(codec: crate::media::Codec) -> bool {
    codec == crate::media::Codec::Mp3 || codec == crate::media::Codec::AacLc || codec
        == crate::media::Codec::HeAacV1 || codec == crate::media::Codec::HeAacV2 || codec
        == crate::media::Codec::Opus || codec == crate::media::Codec::Vorbis
}

/// MP3, AAC, Opus or Vorbis in an MP3, MP4, Ogg, WebM or Matroska container is playable.
pub fn check_playback_format(container: crate::media::Container, codec: crate::media::Codec) -> (result:
    Result<(), SoundCloudPlaybackError>)
    ensures
        playable_container(container) && playable_codec(codec) ==> result is Ok,
        !(playable_container(container) && playable_codec(codec)) ==> (result matches Err(e)
            && e.spec_kind() == SoundCloudPlaybackErrorKind::IncompatibleFormat),
{
    let container_ok = match container {
        crate::media::Container::Mp3
        | crate::media::Container::Mp4
        | crate::media::Container::Ogg
        | crate::media::Container::WebM
        | crate::media::Container::Matroska => true,
        _ => false,
    };
    let codec_ok = match codec {
        crate::media::Codec::Mp3
        | crate::media::Codec::AacLc
        | crate::media::Codec::HeAacV1
        | crate::media::Codec::HeAacV2
        | crate::media::Codec::Opus
        | crate::media::Codec::Vorbis => true,
        _ => false,
    };
    if !container_ok || !codec_ok {
        return Err(SoundCloudPlaybackError::new(SoundCloudPlaybackErrorKind::IncompatibleFormat));
    }
    Ok(())
}

// ---------------------------------------------------------------------------------------------
// Manager state
// ---------------------------------------------------------------------------------------------

/// The policy, credentials and lifecycle state of a SoundCloud source.
pub struct SoundCloudSourceManager {
    options: SoundCloudSourceOptions,
    authentication: SoundCloudAuthentication,
    shutdown: bool,
}

impl SoundCloudSourceManager {
    pub closed spec fn spec_options(&self) -> SoundCloudSourceOptions {
        self.options
    }

    pub closed spec fn spec_authentication(&self) -> SoundCloudAuthentication {
        self.authentication
    }

    pub closed spec fn is_shut_down(&self) -> bool {
        self.shutdown
    }

    /// Creates a manager after validating HTTP, parser and credential limits; the HTTP policy is
    /// validated against the transport's redirect and retry ceilings.
    pub fn new(
        options: SoundCloudSourceOptions,
        authentication: SoundCloudAuthentication,
        redirect_ceiling: u32,
        retry_ceiling: u32,
    ) -> (result: Result<Self, SoundCloudError>)
        ensures
            options.is_valid() && options.http.is_valid(redirect_ceiling, retry_ceiling) ==> (
            result matches Ok(m) && m.spec_options() == options && m.spec_authentication()
                == authentication && !m.is_shut_down()),
            !(options.is_valid() && options.http.is_valid(redirect_ceiling, retry_ceiling)) ==> (
            result matches Err(e) && e.spec_kind() == SoundCloudErrorKind::InvalidOptions),
    {
        options.validate()?;
        if options.http.validate(redirect_ceiling, retry_ceiling).is_err() {
            return Err(SoundCloudError::new(SoundCloudErrorKind::InvalidOptions));
        }
        Ok(SoundCloudSourceManager { options, authentication, shutdown: false })
    }

    pub fn authentication(&self) -> (authentication: &SoundCloudAuthentication)
        ensures
            *authentication == self.spec_authentication(),
    {
        &self.authentication
    }

    pub fn source_name(&self) -> (name: &'static str)
        ensures
            name == "soundcloud",
    {
        "soundcloud"
    }

    pub fn ensure_active(&self, cancelled: bool) -> (result: Result<(), SoundCloudError>)
        ensures
            self.is_shut_down() ==> (result matches Err(e) && e.spec_kind()
                == SoundCloudErrorKind::Shutdown),
            !self.is_shut_down() && cancelled ==> (result matches Err(e) && e.spec_kind()
                == SoundCloudErrorKind::Cancelled),
            !self.is_shut_down() && !cancelled ==> result is Ok,
    {
        if self.shutdown {
            return Err(SoundCloudError::new(SoundCloudErrorKind::Shutdown));
        }
        if cancelled {
            return Err(SoundCloudError::new(SoundCloudErrorKind::Cancelled));
        }
        Ok(())
    }

    /// Searching needs search allowed and a bounded, non-empty query.
    pub fn check_search(&self, query: &str) -> (result: Result<(), SoundCloudError>)
        ensures
            self.spec_options().allow_search && query@.len() > 0 && utf8_len(query@)
                <= self.spec_options().max_metadata_string_bytes ==> result is Ok,
            !(self.spec_options().allow_search && query@.len() > 0 && utf8_len(query@)
                <= self.spec_options().max_metadata_string_bytes) ==> (result matches Err(e)
                && e.spec_kind() == SoundCloudErrorKind::InvalidOptions),
    {
        let text = chars_of(query);
        if !self.options.allow_search || text.len() == 0 || utf8_length(text.as_slice())
            > self.options.max_metadata_string_bytes {
            return Err(SoundCloudError::new(SoundCloudErrorKind::InvalidOptions));
        }
        Ok(())
    }

    /// The playback URL of a track: refused when the manager is shut down or the load is
    /// cancelled, refused for blocked and preview-only tracks, none without a transcoding, and
    /// otherwise the transcoding URL with the client ID appended.
    pub fn resolve_track_playback(&self, track: &SoundCloudSourceTrack, cancelled: bool) -> (result:
        Result<Option<SoundCloudPlaybackUrl>, SoundCloudError>)
        ensures
            self.is_shut_down() ==> (result matches Err(e) && e.spec_kind()
                == SoundCloudErrorKind::Shutdown),
            !self.is_shut_down() && cancelled ==> (result matches Err(e) && e.spec_kind()
                == SoundCloudErrorKind::Cancelled),
            !self.is_shut_down() && !cancelled && track.access == SoundCloudAccess::Blocked ==> (
            result matches Err(e) && e.spec_kind() == SoundCloudErrorKind::Blocked),
            !self.is_shut_down() && !cancelled && track.access == SoundCloudAccess::Preview ==> (
            result matches Err(e) && e.spec_kind() == SoundCloudErrorKind::PreviewOnly),
            !self.is_shut_down() && !cancelled && track.access == SoundCloudAccess::Playable ==> (
            match track.playback {
                None => result matches Ok(None),
                Some(p) => {
                    let url = spec_with_client_id(
                        p.spec_url(),
                        self.spec_authentication().spec_client_id(),
                    );
                    if utf8_len(url) <= self.spec_options().max_stream_url_bytes {
                        result matches Ok(Some(r)) && r.spec_url() == url && r.spec_mime_type()
                            == p.spec_mime_type() && r.spec_protocol() == p.spec_protocol()
                    } else {
                        result matches Err(e) && e.spec_kind()
                            == SoundCloudErrorKind::InvalidResponse
                    }
                },
            }),
    {
        self.ensure_active(cancelled)?;
        if track.access == SoundCloudAccess::Blocked {
            return Err(SoundCloudError::new(SoundCloudErrorKind::Blocked));
        }
        if track.access == SoundCloudAccess::Preview {
            return Err(SoundCloudError::new(SoundCloudErrorKind::PreviewOnly));
        }
        match &track.playback {
            None => Ok(None),
            Some(p) => Ok(
                Some(
                    append_client_id(
                        p,
                        self.authentication.client_id(),
                        self.options.max_stream_url_bytes,
                    )?,
                ),
            ),
        }
    }

    /// Only tracks are stored.
    pub fn is_encodable(&self, item: &SoundCloudSourceItem) -> (encodable: bool)
        ensures
            encodable == item is Track,
    {
        match item {
            SoundCloudSourceItem::Track(_) => true,
            SoundCloudSourceItem::Playlist(_) => false,
        }
    }

    /// A stored track needs no payload; a playlist cannot be stored.
    pub fn encode(&self, item: &SoundCloudSourceItem) -> (result: Result<
        Vec<u8>,
        crate::source::SourceRegistryError,
    >)
        ensures
            item is Track ==> (result matches Ok(v) && v@.len() == 0),
            item is Playlist ==> result == Err::<Vec<u8>, crate::source::SourceRegistryError>(
                crate::source::SourceRegistryError::NotEncodable,
            ),
    {
        match item {
            SoundCloudSourceItem::Track(_) => Ok(Vec::new()),
            SoundCloudSourceItem::Playlist(_) => Err(
                crate::source::SourceRegistryError::NotEncodable,
            ),
        }
    }

    /// Rebuilds a stored track: the payload is empty and the identifier non-empty and bounded.
    pub fn decode_with_info(&self, info: &crate::track::TrackInfo, payload: &[u8]) -> (result:
        Result<SoundCloudSourceItem, crate::source::SourceRegistryError>)
        ensures
            payload@.len() == 0 && info.identifier@.len() > 0 && utf8_len(info.identifier@)
                <= self.spec_options().max_identifier_bytes ==> (result matches Ok(
                SoundCloudSourceItem::Track(t),
            ) && t.info@ == info@ && t.access == SoundCloudAccess::Playable && t.playback is None),
            !(payload@.len() == 0 && info.identifier@.len() > 0 && utf8_len(info.identifier@)
                <= self.spec_options().max_identifier_bytes) ==> result == Err::<
                SoundCloudSourceItem,
                crate::source::SourceRegistryError,
            >(crate::source::SourceRegistryError::SourceFailure),
    {
        let id = chars_of(info.identifier.as_str());
        if payload.len() != 0 || id.len() == 0 || utf8_length(id.as_slice())
            > self.options.max_identifier_bytes {
            return Err(crate::source::SourceRegistryError::SourceFailure);
        }
        Ok(
            SoundCloudSourceItem::Track(
                SoundCloudSourceTrack {
                    info: info.duplicate(),
                    access: SoundCloudAccess::Playable,
                    playback: None,
                },
            ),
        )
    }

    /// Stops the manager; every later load fails as shut down.
    pub fn shutdown(&mut self)
        ensures
            final(self).is_shut_down(),
            final(self).spec_options() == old(self).spec_options(),
            final(self).spec_authentication() == old(self).spec_authentication(),
    {
        self.shutdown = true;
    }
}

/// Every track read from an answer has a non-empty identifier within the identifier limit,
/// which is what rebuilding a stored track (`decode_with_info`) accepts.
pub proof fn law_loaded_tracks_can_be_stored(
    data: SoundCloudTrackData,
    source_url: Seq<char>,
    options: SoundCloudSourceOptions,
)
    ensures
        spec_parse_track(data, source_url, options) matches Some(t) ==> t.info.identifier.len() > 0
            && utf8_len(t.info.identifier) <= options.max_identifier_bytes,
{
}

// ---------------------------------------------------------------------------------------------
// API requests
// ---------------------------------------------------------------------------------------------

/// The resolve endpoint for a page URL, with the page URL and the client ID form-encoded.
pub open spec fn resolve_endpoint(options: SoundCloudSourceOptions, client_id: Seq<char>, url: Seq<
    char,
>) -> Seq<char> {
    trim_end_slashes(options.api_base_url@) + "/resolve?url="@ + form_encode(encode_utf8(url))
        + "&client_id="@ + form_encode(encode_utf8(client_id))
}

/// How many tracks a search asks for: the collection bound, at most 200.
pub open spec fn search_limit(options: SoundCloudSourceOptions) -> u64 {
    if options.max_collection_tracks < 200 {
        options.max_collection_tracks as u64
    } else {
        200
    }
}

/// The track-search endpoint for a query, from the first result on.
pub open spec fn search_endpoint(options: SoundCloudSourceOptions, client_id: Seq<char>, query: Seq<
    char,
>) -> Seq<char> {
    trim_end_slashes(options.api_base_url@) + "/search/tracks?q="@ + form_encode(encode_utf8(query))
        + "&limit="@ + crate::http_policy::dec(search_limit(options)) + "&offset=0&client_id="@
        + form_encode(encode_utf8(client_id))
}

/// An API request: JSON, the user agent and the API response ceiling, then the OAuth token when
/// one is configured. Any refusal is an options failure.
pub open spec fn spec_api_request(
    endpoint: Seq<char>,
    options: SoundCloudSourceOptions,
    authentication: SoundCloudAuthentication,
) -> Result<crate::remote_http::RequestView, SoundCloudErrorKind> {
    match crate::remote_http::spec_build_request(
        endpoint,
        None,
        seq![("Accept"@, "application/json"@), ("User-Agent"@, "Mantle-SoundCloud/1"@)],
        options.max_response_bytes,
        crate::remote_http::RemoteRetryMode::Idempotent,
        match authentication.spec_oauth_token() {
            Some(t) => seq![("Authorization"@, "OAuth "@ + t)],
            None => Seq::empty(),
        },
    ) {
        Ok(v) => Ok(v),
        Err(_) => Err(SoundCloudErrorKind::InvalidOptions),
    }
}

impl SoundCloudSourceManager {
    fn api_request(&self, endpoint: &str) -> (result: Result<
        crate::remote_http::RemoteHttpRequest,
        SoundCloudError,
    >)
        ensures
            match spec_api_request(endpoint@, self.spec_options(), self.spec_authentication()) {
                Ok(v) => result matches Ok(r) && r@ == v,
                Err(k) => result matches Err(e) && e.spec_kind() == k,
            },
    {
        proof {
            crate::remote_http::lemma_source_header_names();
        }
        let headers = [("Accept", "application/json"), ("User-Agent", "Mantle-SoundCloud/1")];
        proof {
            assert(crate::remote_http::str_pairs(headers@) =~= seq![
                ("Accept"@, "application/json"@),
                ("User-Agent"@, "Mantle-SoundCloud/1"@),
            ]);
        }
        let authorization = match self.authentication.oauth_token() {
            Some(t) => {
                let parts = ["OAuth ", t];
                let value = string_from_chars(crate::niconico::join_chars(&parts).as_slice());
                proof {
                    reveal_with_fuel(crate::niconico::join_parts, 3);
                }
                Some(value)
            },
            None => None,
        };
        let result = match &authorization {
            Some(value) => {
                let trailing = [("Authorization", value.as_str())];
                proof {
                    assert(crate::remote_http::str_pairs(trailing@) =~= seq![
                        ("Authorization"@, "OAuth "@ + self.spec_authentication().spec_oauth_token()->0),
                    ]);
                }
                crate::remote_http::build_request(
                    endpoint,
                    None,
                    &headers,
                    self.options.max_response_bytes,
                    crate::remote_http::RemoteRetryMode::Idempotent,
                    &trailing,
                )
            },
            None => {
                let trailing: [(&str, &str); 0] = [];
                proof {
                    assert(crate::remote_http::str_pairs(trailing@) =~= Seq::empty());
                }
                crate::remote_http::build_request(
                    endpoint,
                    None,
                    &headers,
                    self.options.max_response_bytes,
                    crate::remote_http::RemoteRetryMode::Idempotent,
                    &trailing,
                )
            },
        };
        match result {
            Ok(r) => Ok(r),
            Err(_) => Err(SoundCloudError::new(SoundCloudErrorKind::InvalidOptions)),
        }
    }

    /// The request that resolves a SoundCloud page URL.
    pub fn resolve_request(&self, url: &str) -> (result: Result<
        crate::remote_http::RemoteHttpRequest,
        SoundCloudError,
    >)
        ensures
            match spec_api_request(
                resolve_endpoint(self.spec_options(), self.spec_authentication().spec_client_id(), url@),
                self.spec_options(),
                self.spec_authentication(),
            ) {
                Ok(v) => result matches Ok(r) && r@ == v,
                Err(k) => result matches Err(e) && e.spec_kind() == k,
            },
    {
        let base = string_from_chars(
            trim_end_slash_chars(chars_of(self.options.api_base_url.as_str()).as_slice()).as_slice(),
        );
        let encoded_url = form_url_encode(url);
        let encoded_id = form_url_encode(self.authentication.client_id());
        let parts = [
            base.as_str(),
            "/resolve?url=",
            encoded_url.as_str(),
            "&client_id=",
            encoded_id.as_str(),
        ];
        let endpoint = string_from_chars(crate::niconico::join_chars(&parts).as_slice());
        proof {
            reveal_with_fuel(crate::niconico::join_parts, 6);
            assert(endpoint@ =~= resolve_endpoint(
                self.spec_options(),
                self.spec_authentication().spec_client_id(),
                url@,
            ));
        }
        self.api_request(endpoint.as_str())
    }

    /// The request that searches tracks; searching must be allowed and the query bounded.
    pub fn search_request(&self, query: &str) -> (result: Result<
        crate::remote_http::RemoteHttpRequest,
        SoundCloudError,
    >)
        ensures
            !(self.spec_options().allow_search && query@.len() > 0 && utf8_len(query@)
                <= self.spec_options().max_metadata_string_bytes) ==> (result matches Err(e)
                && e.spec_kind() == SoundCloudErrorKind::InvalidOptions),
            self.spec_options().allow_search && query@.len() > 0 && utf8_len(query@)
                <= self.spec_options().max_metadata_string_bytes ==> match spec_api_request(
                search_endpoint(
                    self.spec_options(),
                    self.spec_authentication().spec_client_id(),
                    query@,
                ),
                self.spec_options(),
                self.spec_authentication(),
            ) {
                Ok(v) => result matches Ok(r) && r@ == v,
                Err(k) => result matches Err(e) && e.spec_kind() == k,
            },
    {
        self.check_search(query)?;
        let base = string_from_chars(
            trim_end_slash_chars(chars_of(self.options.api_base_url.as_str()).as_slice()).as_slice(),
        );
        let limit: u64 = if self.options.max_collection_tracks < 200 {
            self.options.max_collection_tracks as u64
        } else {
            200
        };
        let limit_text = crate::track::decimal_string(limit);
        let encoded_query = form_url_encode(query);
        let encoded_id = form_url_encode(self.authentication.client_id());
        let parts = [
            base.as_str(),
            "/search/tracks?q=",
            encoded_query.as_str(),
            "&limit=",
            limit_text.as_str(),
            "&offset=0&client_id=",
            encoded_id.as_str(),
        ];
        let endpoint = string_from_chars(crate::niconico::join_chars(&parts).as_slice());
        proof {
            reveal_with_fuel(crate::niconico::join_parts, 8);
            assert(endpoint@ =~= search_endpoint(
                self.spec_options(),
                self.spec_authentication().spec_client_id(),
                query@,
            ));
        }
        self.api_request(endpoint.as_str())
    }
}

} // verus!
