use vstd::prelude::*;

use crate::playlist::seq_equal;
use crate::route_util::{
    ascii_lowercase, bare_host_uri, is_valid_token, opt_seq_is, spec_bare_host_uri,
    to_ascii_lowercase, valid_token,
};
use crate::text::{chars_of, copy_range, has_prefix, starts_with, string_from_chars};

verus! {

pub const MAX_CONFIGURED_IDENTIFIER_BYTES: usize = 64 * 1024;

pub const MAX_CONFIGURED_CLIP_ID_BYTES: usize = 1024;

pub const MAX_CONFIGURED_MEDIA_URL_BYTES: usize = 1024 * 1024;

/// A bounded historical Getyarn clip-page route.
#[derive(Clone, Debug, PartialEq, Eq)]
pub struct GetyarnRoute {
    pub clip_id: String,
    pub original_url: String,
}

pub struct GetyarnRouteView {
    pub clip_id: Seq<char>,
    pub original_url: Seq<char>,
}

impl View for GetyarnRoute {
    type V = GetyarnRouteView;

    open spec fn view(&self) -> GetyarnRouteView {
        GetyarnRouteView { clip_id: self.clip_id@, original_url: self.original_url@ }
    }
}

impl GetyarnRoute {
    /// The clip page on the current HTTPS host.
    pub fn canonical_url(&self) -> (url: String)
        ensures
            url@ == "https://getyarn.io/yarn-clip/"@ + self.clip_id@,
    {
        let mut out = chars_of("https://getyarn.io/yarn-clip/");
        let mut clip = chars_of(self.clip_id.as_str());
        let ghost head = out@;
        let ghost tail = clip@;
        out.append(&mut clip);
        proof {
            assert(out@ =~= head + tail);
        }
        string_from_chars(out.as_slice())
    }
}

/// Limits for compatibility routing and legacy empty-detail reconstruction.
#[derive(Clone, Copy, Debug, PartialEq, Eq)]
pub struct GetyarnSourceOptions {
    pub max_identifier_bytes: usize,
    pub max_clip_id_bytes: usize,
    pub max_media_url_bytes: usize,
}

impl GetyarnSourceOptions {
    pub fn default_options() -> (options: Self)
        ensures
            options.max_identifier_bytes == 8 * 1024,
            options.max_clip_id_bytes == 128,
            options.max_media_url_bytes == 64 * 1024,
    {
        GetyarnSourceOptions {
            max_identifier_bytes: 8 * 1024,
            max_clip_id_bytes: 128,
            max_media_url_bytes: 64 * 1024,
        }
    }

    /// Every limit is non-zero and within its configured ceiling.
    pub open spec fn is_valid(self) -> bool {
        &&& 0 < self.max_identifier_bytes <= MAX_CONFIGURED_IDENTIFIER_BYTES
        &&& 0 < self.max_clip_id_bytes <= MAX_CONFIGURED_CLIP_ID_BYTES
        &&& 0 < self.max_media_url_bytes <= MAX_CONFIGURED_MEDIA_URL_BYTES
    }

    pub fn validate(self) -> (result: Result<Self, GetyarnError>)
        ensures
            self.is_valid() ==> result == Ok::<Self, GetyarnError>(self),
            !self.is_valid() ==> (result matches Err(e) && e.spec_kind()
                == GetyarnErrorKind::InvalidOptions),
    {
        if self.max_identifier_bytes == 0 || self.max_identifier_bytes
            > MAX_CONFIGURED_IDENTIFIER_BYTES || self.max_clip_id_bytes == 0
            || self.max_clip_id_bytes > MAX_CONFIGURED_CLIP_ID_BYTES || self.max_media_url_bytes
            == 0 || self.max_media_url_bytes > MAX_CONFIGURED_MEDIA_URL_BYTES {
            return Err(GetyarnError::new(GetyarnErrorKind::InvalidOptions));
        }
        Ok(self)
    }
}

pub open spec fn getyarn_host(host: Seq<char>) -> bool {
    let h = ascii_lowercase(host);
    h == "getyarn.io"@ || h == "www.getyarn.io"@
}

/// The route that a historical Getyarn clip page names.
pub open spec fn spec_route_getyarn(identifier: Seq<char>, options: GetyarnSourceOptions) -> Option<
    GetyarnRouteView,
> {
    match spec_bare_host_uri(identifier, options.max_identifier_bytes as int) {
        None => None,
        Some(u) => if !(u.scheme == Some("http"@) || u.scheme == Some("https"@)) || u.query is Some
            || !getyarn_host(u.host->0) || !has_prefix(u.path, "/yarn-clip/"@) || !valid_token(
            u.path.skip("/yarn-clip/"@.len() as int),
            options.max_clip_id_bytes as int,
        ) {
            None
        } else {
            Some(
                GetyarnRouteView {
                    clip_id: u.path.skip("/yarn-clip/"@.len() as int),
                    original_url: identifier,
                },
            )
        },
    }
}

fn is_getyarn_host(host: &[char]) -> (result: bool)
    ensures
        result == getyarn_host(host@),
{
    let h = to_ascii_lowercase(host);
    seq_equal(h.as_slice(), chars_of("getyarn.io").as_slice()) || seq_equal(
        h.as_slice(),
        chars_of("www.getyarn.io").as_slice(),
    )
}

/// Recognizes the historical Getyarn clip-page shape without network access.
pub fn route_getyarn_identifier(identifier: &str, options: &GetyarnSourceOptions) -> (route: Option<
    GetyarnRoute,
>)
    ensures
        match spec_route_getyarn(identifier@, *options) {
            Some(r) => route matches Some(x) && x@ == r,
            None => route is None,
        },
{
    let text = chars_of(identifier);
    let uri = bare_host_uri(text.as_slice(), options.max_identifier_bytes)?;
    if !(opt_seq_is(&uri.scheme, "http") || opt_seq_is(&uri.scheme, "https"))
        || uri.query.is_some() {
        return None;
    }
    let host_ok = match &uri.host {
        Some(h) => is_getyarn_host(h.as_slice()),
        None => false,
    };
    if !host_ok {
        return None;
    }
    let prefix = chars_of("/yarn-clip/");
    if !starts_with(uri.path.as_slice(), prefix.as_slice()) {
        return None;
    }
    let clip = copy_range(uri.path.as_slice(), prefix.len(), uri.path.len());
    proof {
        assert(clip@ =~= uri.path@.skip("/yarn-clip/"@.len() as int));
    }
    if !is_valid_token(clip.as_slice(), options.max_clip_id_bytes) {
        return None;
    }
    Some(
        GetyarnRoute {
            clip_id: string_from_chars(clip.as_slice()),
            original_url: string_from_chars(text.as_slice()),
        },
    )
}

/// A legacy media URL: bounded, without a fragment, HTTPS with a bare-host authority.
pub open spec fn spec_valid_legacy_media_url(url: Seq<char>, limit: int) -> bool {
    match spec_bare_host_uri(url, limit) {
        None => false,
        Some(u) => u.scheme == Some("https"@),
    }
}

pub fn valid_legacy_media_url(url: &str, limit: usize) -> (valid: bool)
    ensures
        valid == spec_valid_legacy_media_url(url@, limit as int),
{
    let text = chars_of(url);
    match bare_host_uri(text.as_slice(), limit) {
        None => false,
        Some(u) => opt_seq_is(&u.scheme, "https"),
    }
}

#[derive(Clone, Copy, Debug, PartialEq, Eq, Structural)]
pub enum GetyarnErrorKind {
    InvalidOptions,
    UnsupportedRoute,
    InvalidSourceDetails,
    Cancelled,
    Shutdown,
    UnsupportedPlayback,
}

#[derive(Clone, Copy, Debug, PartialEq, Eq, Structural)]
pub struct GetyarnError {
    kind: GetyarnErrorKind,
}

pub open spec fn spec_getyarn_message(kind: GetyarnErrorKind) -> &'static str {
    match kind {
        GetyarnErrorKind::InvalidOptions => "invalid Getyarn compatibility policy",
        GetyarnErrorKind::UnsupportedRoute => "Getyarn route is not implemented",
        GetyarnErrorKind::InvalidSourceDetails => "invalid legacy Getyarn source details",
        GetyarnErrorKind::Cancelled => "Getyarn compatibility load cancelled",
        GetyarnErrorKind::Shutdown => "Getyarn compatibility source is shut down",
        GetyarnErrorKind::UnsupportedPlayback => "Getyarn playback has no supported current protocol",
    }
}

impl GetyarnError {
    pub closed spec fn spec_kind(self) -> GetyarnErrorKind {
        self.kind
    }

    pub fn new(kind: GetyarnErrorKind) -> (error: Self)
        ensures
            error.spec_kind() == kind,
    {
        GetyarnError { kind }
    }

    pub fn kind(self) -> (kind: GetyarnErrorKind)
        ensures
            kind == self.spec_kind(),
    {
        self.kind
    }

    pub fn message(self) -> (text: &'static str)
        ensures
            text == spec_getyarn_message(self.spec_kind()),
    {
        match self.kind {
            GetyarnErrorKind::InvalidOptions => "invalid Getyarn compatibility policy",
            GetyarnErrorKind::UnsupportedRoute => "Getyarn route is not implemented",
            GetyarnErrorKind::InvalidSourceDetails => "invalid legacy Getyarn source details",
            GetyarnErrorKind::Cancelled => "Getyarn compatibility load cancelled",
            GetyarnErrorKind::Shutdown => "Getyarn compatibility source is shut down",
            GetyarnErrorKind::UnsupportedPlayback => {
                "Getyarn playback has no supported current protocol"
            },
        }
    }
}

/// Compatibility-only Getyarn manager. It contains no network client by design.
pub struct GetyarnSourceManager {
    options: GetyarnSourceOptions,
    shutdown: bool,
}

impl GetyarnSourceManager {
    pub closed spec fn spec_options(&self) -> GetyarnSourceOptions {
        self.options
    }

    pub closed spec fn is_shut_down(&self) -> bool {
        self.shutdown
    }

    /// Creates a bounded compatibility manager; zero or excessive limits are refused.
    pub fn new(options: GetyarnSourceOptions) -> (result: Result<Self, GetyarnError>)
        ensures
            options.is_valid() ==> (result matches Ok(m) && m.spec_options() == options
                && !m.is_shut_down()),
            !options.is_valid() ==> (result matches Err(e) && e.spec_kind()
                == GetyarnErrorKind::InvalidOptions),
    {
        let options = options.validate()?;
        Ok(GetyarnSourceManager { options, shutdown: false })
    }

    pub fn source_name(&self) -> (name: &'static str)
        ensures
            name == "getyarn.io",
    {
        "getyarn.io"
    }

    /// The deterministic outcome for a recognized clip page: no current playback protocol. A
    /// shut-down manager, a cancelled load or a route that its URL does not give fails first.
    pub fn load_route(&self, route: &GetyarnRoute, cancelled: bool) -> (result: Result<
        (),
        GetyarnError,
    >)
        ensures
            result is Err,
            result->Err_0.spec_kind() == if self.is_shut_down() {
                GetyarnErrorKind::Shutdown
            } else if cancelled {
                GetyarnErrorKind::Cancelled
            } else if spec_route_getyarn(route.original_url@, self.spec_options()) != Some(route@) {
                GetyarnErrorKind::UnsupportedRoute
            } else {
                GetyarnErrorKind::UnsupportedPlayback
            },
    {
        if self.shutdown {
            return Err(GetyarnError::new(GetyarnErrorKind::Shutdown));
        }
        if cancelled {
            return Err(GetyarnError::new(GetyarnErrorKind::Cancelled));
        }
        let recognized = match route_getyarn_identifier(route.original_url.as_str(), &self.options) {
            Some(r) => seq_equal(
                chars_of(r.clip_id.as_str()).as_slice(),
                chars_of(route.clip_id.as_str()).as_slice(),
            ) && seq_equal(
                chars_of(r.original_url.as_str()).as_slice(),
                chars_of(route.original_url.as_str()).as_slice(),
            ),
            None => false,
        };
        if !recognized {
            return Err(GetyarnError::new(GetyarnErrorKind::UnsupportedRoute));
        }
        Err(GetyarnError::new(GetyarnErrorKind::UnsupportedPlayback))
    }

    /// The clip route that legacy track details name: a non-stream track whose identifier is a
    /// valid legacy media URL and whose URI is a recognized clip page.
    pub fn parse_legacy_track_info(
        &self,
        is_stream: bool,
        identifier: &str,
        uri: Option<&str>,
    ) -> (route: Option<GetyarnRoute>)
        ensures
            is_stream || !spec_valid_legacy_media_url(
                identifier@,
                self.spec_options().max_media_url_bytes as int,
            ) || uri is None ==> route is None,
            !is_stream && spec_valid_legacy_media_url(
                identifier@,
                self.spec_options().max_media_url_bytes as int,
            ) && uri is Some ==> match spec_route_getyarn(uri->0@, self.spec_options()) {
                Some(r) => route matches Some(x) && x@ == r,
                None => route is None,
            },
    {
        if is_stream || !valid_legacy_media_url(identifier, self.options.max_media_url_bytes) {
            return None;
        }
        match uri {
            Some(u) => route_getyarn_identifier(u, &self.options),
            None => None,
        }
    }

    /// Stops the manager; every later load fails as shut down.
    pub fn shutdown(&mut self)
        ensures
            final(self).is_shut_down(),
            final(self).spec_options() == old(self).spec_options(),
    {
        self.shutdown = true;
    }
}

} // verus!
