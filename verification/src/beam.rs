use vstd::prelude::*;

use crate::playlist::seq_equal;
use crate::route_util::{
    ascii_lowercase, bare_host_uri, is_valid_token, opt_seq_is, spec_bare_host_uri,
    to_ascii_lowercase, utf8_len, utf8_length, valid_token,
};
use crate::text::{chars_of, copy_range, has_prefix, split_once, split_once_chars, starts_with,
    string_from_chars};

verus! {

pub const MAX_CONFIGURED_IDENTIFIER_BYTES: usize = 64 * 1024;

pub const MAX_CONFIGURED_CHANNEL_BYTES: usize = 1024;

pub const MAX_CONFIGURED_STREAM_ID_BYTES: usize = 64 * 1024;

/// A bounded historical Beam/Mixer live-channel route.
#[derive(Clone, Debug, PartialEq, Eq)]
pub struct BeamRoute {
    pub channel: String,
    pub original_url: String,
}

pub struct BeamRouteView {
    pub channel: Seq<char>,
    pub original_url: Seq<char>,
}

impl View for BeamRoute {
    type V = BeamRouteView;

    open spec fn view(&self) -> BeamRouteView {
        BeamRouteView { channel: self.channel@, original_url: self.original_url@ }
    }
}

impl BeamRoute {
    /// The channel page on the legacy Beam host.
    pub fn canonical_url(&self) -> (url: String)
        ensures
            url@ == "https://beam.pro/"@ + self.channel@,
    {
        let mut out = chars_of("https://beam.pro/");
        let mut channel = chars_of(self.channel.as_str());
        let ghost head = out@;
        let ghost tail = channel@;
        out.append(&mut channel);
        proof {
            assert(out@ =~= head + tail);
        }
        string_from_chars(out.as_slice())
    }
}

/// Limits for compatibility routing and legacy source-detail reconstruction.
#[derive(Clone, Copy, Debug, PartialEq, Eq)]
pub struct BeamSourceOptions {
    pub max_identifier_bytes: usize,
    pub max_channel_bytes: usize,
    pub max_stream_id_bytes: usize,
}

impl BeamSourceOptions {
    pub fn default_options() -> (options: Self)
        ensures
            options.max_identifier_bytes == 8 * 1024,
            options.max_channel_bytes == 128,
            options.max_stream_id_bytes == 1024,
    {
        BeamSourceOptions { max_identifier_bytes: 8 * 1024, max_channel_bytes: 128, max_stream_id_bytes: 1024 }
    }

    /// Every limit is non-zero and within its configured ceiling.
    pub open spec fn is_valid(self) -> bool {
        &&& 0 < self.max_identifier_bytes <= MAX_CONFIGURED_IDENTIFIER_BYTES
        &&& 0 < self.max_channel_bytes <= MAX_CONFIGURED_CHANNEL_BYTES
        &&& 0 < self.max_stream_id_bytes <= MAX_CONFIGURED_STREAM_ID_BYTES
    }

    pub fn validate(self) -> (result: Result<Self, BeamError>)
        ensures
            self.is_valid() ==> result == Ok::<Self, BeamError>(self),
            !self.is_valid() ==> (result matches Err(e) && e.spec_kind() == BeamErrorKind::InvalidOptions),
    {
        if self.max_identifier_bytes == 0 || self.max_identifier_bytes
            > MAX_CONFIGURED_IDENTIFIER_BYTES || self.max_channel_bytes == 0
            || self.max_channel_bytes > MAX_CONFIGURED_CHANNEL_BYTES || self.max_stream_id_bytes
            == 0 || self.max_stream_id_bytes > MAX_CONFIGURED_STREAM_ID_BYTES {
            return Err(BeamError::new(BeamErrorKind::InvalidOptions));
        }
        Ok(self)
    }
}

pub open spec fn beam_host(host: Seq<char>) -> bool {
    let h = ascii_lowercase(host);
    h == "beam.pro"@ || h == "www.beam.pro"@ || h == "mixer.com"@ || h == "www.mixer.com"@
}

/// The route that a historical HTTPS Beam or Mixer channel URL names.
pub open spec fn spec_route_beam(identifier: Seq<char>, options: BeamSourceOptions) -> Option<
    BeamRouteView,
> {
    match spec_bare_host_uri(identifier, options.max_identifier_bytes as int) {
        None => None,
        Some(u) => if u.scheme != Some("https"@) || u.query is Some || !beam_host(u.host->0)
            || !has_prefix(u.path, "/"@) || !valid_token(
            u.path.skip(1),
            options.max_channel_bytes as int,
        ) {
            None
        } else {
            Some(BeamRouteView { channel: u.path.skip(1), original_url: identifier })
        },
    }
}

fn is_beam_host(host: &[char]) -> (result: bool)
    ensures
        result == beam_host(host@),
{
    let h = to_ascii_lowercase(host);
    seq_equal(h.as_slice(), chars_of("beam.pro").as_slice()) || seq_equal(
        h.as_slice(),
        chars_of("www.beam.pro").as_slice(),
    ) || seq_equal(h.as_slice(), chars_of("mixer.com").as_slice()) || seq_equal(
        h.as_slice(),
        chars_of("www.mixer.com").as_slice(),
    )
}

fn route_chars(identifier: &[char], options: &BeamSourceOptions) -> (result: Option<Vec<char>>)
    ensures
        match spec_route_beam(identifier@, *options) {
            Some(r) => result matches Some(c) && c@ == r.channel,
            None => result is None,
        },
{
    let uri = bare_host_uri(identifier, options.max_identifier_bytes)?;
    if !opt_seq_is(&uri.scheme, "https") || uri.query.is_some() {
        return None;
    }
    let host_ok = match &uri.host {
        Some(h) => is_beam_host(h.as_slice()),
        None => false,
    };
    if !host_ok {
        return None;
    }
    if !starts_with(uri.path.as_slice(), chars_of("/").as_slice()) {
        return None;
    }
    proof {
        reveal_strlit("/");
    }
    let channel = copy_range(uri.path.as_slice(), 1, uri.path.len());
    proof {
        assert(channel@ =~= uri.path@.skip(1));
    }
    if !is_valid_token(channel.as_slice(), options.max_channel_bytes) {
        return None;
    }
    Some(channel)
}

/// Recognizes the historical HTTPS Beam and Mixer channel URL shapes without network access.
pub fn route_beam_identifier(identifier: &str, options: &BeamSourceOptions) -> (route: Option<
    BeamRoute,
>)
    ensures
        match spec_route_beam(identifier@, *options) {
            Some(r) => route matches Some(x) && x@ == r,
            None => route is None,
        },
{
    let text = chars_of(identifier);
    let channel = route_chars(text.as_slice(), options)?;
    Some(
        BeamRoute {
            channel: string_from_chars(channel.as_slice()),
            original_url: string_from_chars(text.as_slice()),
        },
    )
}

/// The stream ID, channel and page URL that legacy empty source details carry.
pub struct BeamLegacyIdentifier {
    pub stream_id: String,
    pub channel: String,
    pub original_url: String,
}

/// `stream|channel|url`, the URL a recognized route of that channel.
pub open spec fn spec_parse_legacy_identifier(identifier: Seq<char>, options: BeamSourceOptions) -> Option<
    (Seq<char>, Seq<char>, Seq<char>),
> {
    if identifier.len() == 0 || utf8_len(identifier) > options.max_identifier_bytes {
        None
    } else {
        match split_once(identifier, '|') {
            None => None,
            Some((stream_id, rest)) => match split_once(rest, '|') {
                None => None,
                Some((channel, original_url)) => if !valid_token(
                    stream_id,
                    options.max_stream_id_bytes as int,
                ) || !valid_token(channel, options.max_channel_bytes as int) {
                    None
                } else {
                    match spec_route_beam(original_url, options) {
                        None => None,
                        Some(r) => if r.channel != channel {
                            None
                        } else {
                            Some((stream_id, channel, original_url))
                        },
                    }
                },
            },
        }
    }
}

pub fn parse_legacy_identifier(identifier: &str, options: &BeamSourceOptions) -> (result: Option<
    BeamLegacyIdentifier,
>)
    ensures
        match spec_parse_legacy_identifier(identifier@, *options) {
            Some((s, c, u)) => result matches Some(r) && r.stream_id@ == s && r.channel@ == c
                && r.original_url@ == u,
            None => result is None,
        },
{
    let text = chars_of(identifier);
    if text.len() == 0 || utf8_length(text.as_slice()) > options.max_identifier_bytes {
        return None;
    }
    let (stream_id, rest) = split_once_chars(text.as_slice(), '|')?;
    let (channel, original_url) = split_once_chars(rest.as_slice(), '|')?;
    if !is_valid_token(stream_id.as_slice(), options.max_stream_id_bytes) || !is_valid_token(
        channel.as_slice(),
        options.max_channel_bytes,
    ) {
        return None;
    }
    let routed = route_chars(original_url.as_slice(), options)?;
    if !seq_equal(routed.as_slice(), channel.as_slice()) {
        return None;
    }
    Some(
        BeamLegacyIdentifier {
            stream_id: string_from_chars(stream_id.as_slice()),
            channel: string_from_chars(channel.as_slice()),
            original_url: string_from_chars(original_url.as_slice()),
        },
    )
}

#[derive(Clone, Copy, Debug, PartialEq, Eq, Structural)]
pub enum BeamErrorKind {
    InvalidOptions,
    UnsupportedRoute,
    InvalidSourceDetails,
    Cancelled,
    Shutdown,
    ServiceClosed,
}

#[derive(Clone, Copy, Debug, PartialEq, Eq, Structural)]
pub struct BeamError {
    kind: BeamErrorKind,
}

impl BeamError {
    pub closed spec fn spec_kind(self) -> BeamErrorKind {
        self.kind
    }

    pub fn new(kind: BeamErrorKind) -> (error: Self)
        ensures
            error.spec_kind() == kind,
    {
        BeamError { kind }
    }

    pub fn kind(self) -> (kind: BeamErrorKind)
        ensures
            kind == self.spec_kind(),
    {
        self.kind
    }

    pub fn message(self) -> (text: &'static str)
        ensures
            text == spec_beam_message(self.spec_kind()),
    {
        match self.kind {
            BeamErrorKind::InvalidOptions => "invalid Beam compatibility policy",
            BeamErrorKind::UnsupportedRoute => "Beam route is not implemented",
            BeamErrorKind::InvalidSourceDetails => "invalid legacy Beam source details",
            BeamErrorKind::Cancelled => "Beam compatibility load cancelled",
            BeamErrorKind::Shutdown => "Beam compatibility source is shut down",
            BeamErrorKind::ServiceClosed => "Beam/Mixer service is closed",
        }
    }
}

pub open spec fn spec_beam_message(kind: BeamErrorKind) -> &'static str {
    match kind {
        BeamErrorKind::InvalidOptions => "invalid Beam compatibility policy",
        BeamErrorKind::UnsupportedRoute => "Beam route is not implemented",
        BeamErrorKind::InvalidSourceDetails => "invalid legacy Beam source details",
        BeamErrorKind::Cancelled => "Beam compatibility load cancelled",
        BeamErrorKind::Shutdown => "Beam compatibility source is shut down",
        BeamErrorKind::ServiceClosed => "Beam/Mixer service is closed",
    }
}

/// Compatibility-only Beam manager. It contains no network client by design.
pub struct BeamSourceManager {
    options: BeamSourceOptions,
    shutdown: bool,
}

impl BeamSourceManager {
    pub closed spec fn spec_options(&self) -> BeamSourceOptions {
        self.options
    }

    pub closed spec fn is_shut_down(&self) -> bool {
        self.shutdown
    }

    /// Creates a bounded compatibility manager; zero or excessive limits are refused.
    pub fn new(options: BeamSourceOptions) -> (result: Result<Self, BeamError>)
        ensures
            options.is_valid() ==> (result matches Ok(m) && m.spec_options() == options
                && !m.is_shut_down()),
            !options.is_valid() ==> (result matches Err(e) && e.spec_kind() == BeamErrorKind::InvalidOptions),
    {
        let options = options.validate()?;
        Ok(BeamSourceManager { options, shutdown: false })
    }

    pub fn source_name(&self) -> (name: &'static str)
        ensures
            name == "beam.pro",
    {
        "beam.pro"
    }

    fn ensure_active(&self, cancelled: bool) -> (result: Result<(), BeamError>)
        ensures
            self.shutdown ==> (result matches Err(e) && e.spec_kind() == BeamErrorKind::Shutdown),
            !self.shutdown && cancelled ==> (result matches Err(e) && e.spec_kind() == BeamErrorKind::Cancelled),
            !self.shutdown && !cancelled ==> result is Ok,
    {
        if self.shutdown {
            return Err(BeamError::new(BeamErrorKind::Shutdown));
        }
        if cancelled {
            return Err(BeamError::new(BeamErrorKind::Cancelled));
        }
        Ok(())
    }

    /// The deterministic outcome for a historical channel route: the service is closed. A
    /// shut-down manager, a cancelled load or a route that its URL does not give fails first.
    pub fn load_route(&self, route: &BeamRoute, cancelled: bool) -> (result: Result<(), BeamError>)
        ensures
            result is Err,
            result->Err_0.spec_kind() == if self.is_shut_down() {
                BeamErrorKind::Shutdown
            } else if cancelled {
                BeamErrorKind::Cancelled
            } else if spec_route_beam(route.original_url@, self.spec_options()) != Some(route@) {
                BeamErrorKind::UnsupportedRoute
            } else {
                BeamErrorKind::ServiceClosed
            },
    {
        self.ensure_active(cancelled)?;
        let recognized = match route_beam_identifier(route.original_url.as_str(), &self.options) {
            Some(r) => seq_equal(
                chars_of(r.channel.as_str()).as_slice(),
                chars_of(route.channel.as_str()).as_slice(),
            ) && seq_equal(
                chars_of(r.original_url.as_str()).as_slice(),
                chars_of(route.original_url.as_str()).as_slice(),
            ),
            None => false,
        };
        if !recognized {
            return Err(BeamError::new(BeamErrorKind::UnsupportedRoute));
        }
        Err(BeamError::new(BeamErrorKind::ServiceClosed))
    }

    /// Stops the manager; every later load fails as shut down.
    pub fn shutdown(&mut self)
        ensures
            final(self).is_shut_down(),
            final(self).spec_options() == old(self).spec_options(),
    {
        self.shutdown = true;
    }
}

} // verus!
