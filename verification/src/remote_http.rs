use vstd::prelude::*;

use crate::duration::{max_nanos, Duration};
use crate::http_policy::{visible_ascii, HttpNetworkAccess};
use crate::playlist::{contains_char, seq_equal};
use crate::route_util::{contains, opt_seq_is};
use crate::text::chars_of;
use crate::uri::{parse_uri, UriParts, UriView};

verus! {

pub const MAX_CONFIGURED_REQUEST_BYTES: u64 = 64 * 1024 * 1024;

pub const MAX_CONFIGURED_RESPONSE_BYTES: u64 = 64 * 1024 * 1024;

pub const MAX_CONFIGURED_HEADER_BYTES: usize = 1024 * 1024;

pub const MAX_CONFIGURED_SOCKET_BUFFER_BYTES: usize = 1024 * 1024;

/// Five minutes, the longest configurable timeout.
pub open spec fn max_configured_timeout() -> int {
    300int * 1_000_000_000
}

/// Five minutes, the longest configurable retry delay.
pub open spec fn max_configured_retry_delay() -> int {
    300int * 1_000_000_000
}

/// Resource, network, and retry policy for remote-source control-plane requests.
#[derive(Clone, Copy, Debug, PartialEq, Eq)]
pub struct RemoteHttpOptions {
    pub max_request_bytes: u64,
    pub max_response_bytes: u64,
    pub max_response_header_bytes: usize,
    pub socket_buffer_bytes: usize,
    pub connect_timeout: Duration,
    pub request_timeout: Duration,
    pub max_redirects: u32,
    pub max_retries: u32,
    pub retry_base_delay: Duration,
    pub retry_max_delay: Duration,
    pub retry_after_max_delay: Duration,
    pub network_access: HttpNetworkAccess,
}

/// The documented default remote HTTP policy.
pub open spec fn is_default_remote_options(options: RemoteHttpOptions) -> bool {
    &&& options.max_request_bytes == 1024 * 1024
    &&& options.max_response_bytes == 8 * 1024 * 1024
    &&& options.max_response_header_bytes == 32 * 1024
    &&& options.socket_buffer_bytes == 64 * 1024
    &&& options.connect_timeout@ == 10 * 1_000_000_000
    &&& options.request_timeout@ == 30 * 1_000_000_000
    &&& options.max_redirects == 5
    &&& options.max_retries == 2
    &&& options.retry_base_delay@ == 250 * 1_000_000
    &&& options.retry_max_delay@ == 5 * 1_000_000_000
    &&& options.retry_after_max_delay@ == 30 * 1_000_000_000
    &&& options.network_access == HttpNetworkAccess::PublicInternetOnly
}

impl RemoteHttpOptions {
    pub fn default_options() -> (options: Self)
        ensures
            is_default_remote_options(options),
            options.max_request_bytes == 1024 * 1024,
            options.max_response_bytes == 8 * 1024 * 1024,
            options.max_response_header_bytes == 32 * 1024,
            options.socket_buffer_bytes == 64 * 1024,
            options.connect_timeout@ == 10 * 1_000_000_000,
            options.request_timeout@ == 30 * 1_000_000_000,
            options.max_redirects == 5,
            options.max_retries == 2,
            options.retry_base_delay@ == 250 * 1_000_000,
            options.retry_max_delay@ == 5 * 1_000_000_000,
            options.retry_after_max_delay@ == 30 * 1_000_000_000,
            options.network_access == HttpNetworkAccess::PublicInternetOnly,
    {
        RemoteHttpOptions {
            max_request_bytes: 1024 * 1024,
            max_response_bytes: 8 * 1024 * 1024,
            max_response_header_bytes: 32 * 1024,
            socket_buffer_bytes: 64 * 1024,
            connect_timeout: Duration::from_secs(10),
            request_timeout: Duration::from_secs(30),
            max_redirects: 5,
            max_retries: 2,
            retry_base_delay: Duration::from_millis(250),
            retry_max_delay: Duration::from_secs(5),
            retry_after_max_delay: Duration::from_secs(30),
            network_access: HttpNetworkAccess::PublicInternetOnly,
        }
    }

    /// Every bound is non-zero and within its configured ceiling; redirects and retries are
    /// bounded by the transport's ceilings.
    pub open spec fn is_valid(self, redirect_ceiling: u32, retry_ceiling: u32) -> bool {
        &&& 0 < self.max_request_bytes <= MAX_CONFIGURED_REQUEST_BYTES
        &&& 0 < self.max_response_bytes <= MAX_CONFIGURED_RESPONSE_BYTES
        &&& 1024 <= self.max_response_header_bytes <= MAX_CONFIGURED_HEADER_BYTES
        &&& 1024 <= self.socket_buffer_bytes <= MAX_CONFIGURED_SOCKET_BUFFER_BYTES
        &&& 0 < self.connect_timeout@ <= max_configured_timeout()
        &&& 0 < self.request_timeout@ <= max_configured_timeout()
        &&& self.retry_base_delay@ != 0
        &&& self.retry_base_delay@ <= self.retry_max_delay@ <= max_configured_retry_delay()
        &&& 0 < self.retry_after_max_delay@ <= max_configured_retry_delay()
        &&& self.max_redirects <= redirect_ceiling
        &&& self.max_retries <= retry_ceiling
    }

    /// Validates the policy against the transport's redirect and retry ceilings.
    pub fn validate(self, redirect_ceiling: u32, retry_ceiling: u32) -> (result: Result<
        Self,
        RemoteHttpError,
    >)
        ensures
            self.is_valid(redirect_ceiling, retry_ceiling) ==> result == Ok::<Self, RemoteHttpError>(
                self,
            ),
            !self.is_valid(redirect_ceiling, retry_ceiling) ==> (result matches Err(e) && e@
                == error_view(RemoteHttpErrorKind::InvalidOptions)),
    {
        let timeout_ceiling = Duration::from_secs(300);
        let delay_ceiling = Duration::from_secs(300);
        assert(timeout_ceiling@ == max_configured_timeout());
        assert(delay_ceiling@ == max_configured_retry_delay());
        if self.max_request_bytes == 0 || self.max_request_bytes > MAX_CONFIGURED_REQUEST_BYTES
            || self.max_response_bytes == 0 || self.max_response_bytes
            > MAX_CONFIGURED_RESPONSE_BYTES || self.max_response_header_bytes < 1024
            || self.max_response_header_bytes > MAX_CONFIGURED_HEADER_BYTES
            || self.socket_buffer_bytes < 1024 || self.socket_buffer_bytes
            > MAX_CONFIGURED_SOCKET_BUFFER_BYTES || self.connect_timeout.is_zero()
            || timeout_ceiling.less_than(&self.connect_timeout) || self.request_timeout.is_zero()
            || timeout_ceiling.less_than(&self.request_timeout) || self.retry_base_delay.is_zero()
            || self.retry_max_delay.less_than(&self.retry_base_delay) || delay_ceiling.less_than(
            &self.retry_max_delay,
        ) || self.retry_after_max_delay.is_zero() || delay_ceiling.less_than(
            &self.retry_after_max_delay,
        ) || self.max_redirects > redirect_ceiling || self.max_retries > retry_ceiling {
            return Err(RemoteHttpError::new(RemoteHttpErrorKind::InvalidOptions));
        }
        Ok(self)
    }
}

/// Whether a request may be repeated after a transient failure.
#[derive(Clone, Copy, Debug, PartialEq, Eq, Structural)]
pub enum RemoteRetryMode {
    /// Never repeat the request.
    Never,
    /// The caller guarantees that repeating the request is safe.
    Idempotent,
}

#[derive(Clone, Copy, Debug, PartialEq, Eq, Structural)]
pub enum RemoteHttpMethod {
    Get,
    Post,
}

impl RemoteHttpMethod {
    pub fn as_str(self) -> (name: &'static str)
        ensures
            name == (match self {
                RemoteHttpMethod::Get => "GET",
                RemoteHttpMethod::Post => "POST",
            }),
    {
        match self {
            RemoteHttpMethod::Get => "GET",
            RemoteHttpMethod::Post => "POST",
        }
    }
}

/// Stable source-facing classes for all remote HTTP failures.
#[derive(Clone, Copy, Debug, PartialEq, Eq, Structural)]
pub enum RemoteHttpErrorKind {
    InvalidOptions,
    InvalidRequest,
    RequestTooLarge,
    Cancelled,
    DestinationDenied,
    Timeout,
    Transport,
    ResponseTooLarge,
    InvalidResponse,
    Unauthorized,
    Forbidden,
    NotFound,
    RateLimited,
    ServerUnavailable,
    HttpStatus,
}

/// A credential-safe remote-source error with optional status and retry metadata.
#[derive(Clone, Copy, Debug, PartialEq, Eq)]
pub struct RemoteHttpError {
    kind: RemoteHttpErrorKind,
    status: Option<u16>,
    retry_after: Option<Duration>,
}

pub struct RemoteErrorView {
    pub kind: RemoteHttpErrorKind,
    pub status: Option<u16>,
    pub retry_after: Option<int>,
}

pub open spec fn error_view(kind: RemoteHttpErrorKind) -> RemoteErrorView {
    RemoteErrorView { kind, status: None, retry_after: None }
}

impl View for RemoteHttpError {
    type V = RemoteErrorView;

    closed spec fn view(&self) -> RemoteErrorView {
        RemoteErrorView {
            kind: self.kind,
            status: self.status,
            retry_after: crate::hls::opt_duration_view(self.retry_after),
        }
    }
}

impl RemoteHttpError {
    pub fn new(kind: RemoteHttpErrorKind) -> (error: Self)
        ensures
            error@ == error_view(kind),
    {
        RemoteHttpError { kind, status: None, retry_after: None }
    }

    pub fn status(kind: RemoteHttpErrorKind, status: u16) -> (error: Self)
        ensures
            error@ == (RemoteErrorView { kind, status: Some(status), retry_after: None }),
    {
        RemoteHttpError { kind, status: Some(status), retry_after: None }
    }

    pub fn kind(&self) -> (kind: RemoteHttpErrorKind)
        ensures
            kind == self@.kind,
    {
        self.kind
    }

    pub fn status_code(&self) -> (status: Option<u16>)
        ensures
            status == self@.status,
    {
        self.status
    }

    pub fn retry_after(&self) -> (delay: Option<Duration>)
        ensures
            crate::hls::opt_duration_view(delay) == self@.retry_after,
    {
        self.retry_after
    }
}

// ---------------------------------------------------------------------------------------------
// Status and retry policy
// ---------------------------------------------------------------------------------------------

/// Statuses after which an idempotent request may be repeated.
pub open spec fn spec_retriable_status(status: u16) -> bool {
    status == 408 || status == 425 || status == 429 || status == 500 || status == 502 || status
        == 503 || status == 504
}

pub fn is_retriable_status(status: u16) -> (retriable: bool)
    ensures
        retriable == spec_retriable_status(status),
{
    status == 408 || status == 425 || status == 429 || status == 500 || status == 502 || status
        == 503 || status == 504
}

pub open spec fn status_kind(status: u16) -> RemoteHttpErrorKind {
    if status == 401 {
        RemoteHttpErrorKind::Unauthorized
    } else if status == 403 {
        RemoteHttpErrorKind::Forbidden
    } else if status == 404 {
        RemoteHttpErrorKind::NotFound
    } else if status == 429 {
        RemoteHttpErrorKind::RateLimited
    } else if 500 <= status <= 599 {
        RemoteHttpErrorKind::ServerUnavailable
    } else {
        RemoteHttpErrorKind::HttpStatus
    }
}

/// The error for an unsuccessful status; only a rate limit keeps the server's retry delay.
pub fn classify_status(status: u16, retry_after: Option<Duration>) -> (error: RemoteHttpError)
    ensures
        error@ == (RemoteErrorView {
            kind: status_kind(status),
            status: Some(status),
            retry_after: if status == 429 {
                crate::hls::opt_duration_view(retry_after)
            } else {
                None
            },
        }),
{
    let kind = if status == 401 {
        RemoteHttpErrorKind::Unauthorized
    } else if status == 403 {
        RemoteHttpErrorKind::Forbidden
    } else if status == 404 {
        RemoteHttpErrorKind::NotFound
    } else if status == 429 {
        RemoteHttpErrorKind::RateLimited
    } else if 500 <= status && status <= 599 {
        RemoteHttpErrorKind::ServerUnavailable
    } else {
        RemoteHttpErrorKind::HttpStatus
    };
    let mut error = RemoteHttpError::status(kind, status);
    if status == 429 {
        error.retry_after = retry_after;
    }
    error
}

pub open spec fn pow2_u32(n: nat) -> int
    decreases n,
{
    if n == 0 {
        1
    } else {
        2 * pow2_u32((n - 1) as nat)
    }
}

/// The delay before retry number `retry`: the base delay doubled per retry (the exponent capped
/// at 31), capped at the maximum delay, and never shorter than a server's retry delay.
pub open spec fn spec_retry_delay(options: RemoteHttpOptions, retry: u32, retry_after: Option<int>) -> int {
    let shift = if retry < 31 {
        retry as nat
    } else {
        31nat
    };
    let scaled = options.retry_base_delay@ * pow2_u32(shift);
    let exponential = if scaled > max_nanos() {
        options.retry_max_delay@
    } else if scaled <= options.retry_max_delay@ {
        scaled
    } else {
        options.retry_max_delay@
    };
    match retry_after {
        None => exponential,
        Some(d) => if d >= exponential {
            d
        } else {
            exponential
        },
    }
}

proof fn lemma_pow2_u32_bound(n: nat)
    requires
        n <= 31,
    ensures
        1 <= pow2_u32(n) <= 2147483648,
    decreases n,
{
    if n > 0 {
        lemma_pow2_u32_bound((n - 1) as nat);
        assert(pow2_u32(30) == 1073741824) by {
            reveal_with_fuel(pow2_u32, 31);
        }
        if n == 31 {
            assert(pow2_u32(31) == 2147483648) by {
                reveal_with_fuel(pow2_u32, 32);
            }
        } else {
            lemma_pow2_u32_mono((n - 1) as nat, 30);
        }
    }
}

proof fn lemma_pow2_u32_pos(n: nat)
    ensures
        pow2_u32(n) >= 1,
    decreases n,
{
    if n > 0 {
        lemma_pow2_u32_pos((n - 1) as nat);
    }
}

proof fn lemma_pow2_u32_mono(a: nat, b: nat)
    requires
        a <= b,
    ensures
        pow2_u32(a) <= pow2_u32(b),
    decreases b,
{
    if a < b {
        lemma_pow2_u32_mono(a, (b - 1) as nat);
        lemma_pow2_u32_pos((b - 1) as nat);
    }
}

pub fn retry_delay(options: &RemoteHttpOptions, retry: u32, retry_after: Option<Duration>) -> (delay:
    Duration)
    ensures
        delay@ == spec_retry_delay(*options, retry, crate::hls::opt_duration_view(retry_after)),
{
    let shift: u32 = if retry < 31 {
        retry
    } else {
        31
    };
    let mut factor: u32 = 1;
    let mut k: u32 = 0;
    while k < shift
        invariant
            k <= shift <= 31,
            factor == pow2_u32(k as nat),
        decreases shift - k,
    {
        proof {
            lemma_pow2_u32_bound(k as nat);
            lemma_pow2_u32_mono(k as nat, 30);
            assert(pow2_u32(30) == 1073741824) by {
                reveal_with_fuel(pow2_u32, 31);
            }
        }
        factor = factor * 2;
        k = k + 1;
    }
    let exponential = match options.retry_base_delay.checked_mul(factor) {
        Some(d) => d.min(options.retry_max_delay),
        None => options.retry_max_delay,
    };
    match retry_after {
        None => exponential,
        Some(d) => d.max(exponential),
    }
}

/// Request headers that the transport owns and callers may not set.
pub open spec fn spec_transport_owned_header(name: Seq<char>) -> bool {
    name == "host"@ || name == "content-length"@ || name == "transfer-encoding"@ || name
        == "connection"@ || name == "accept-encoding"@
}

pub fn is_transport_owned_header(name: &str) -> (owned: bool)
    ensures
        owned == spec_transport_owned_header(name@),
{
    let n = chars_of(name);
    seq_equal(n.as_slice(), chars_of("host").as_slice()) || seq_equal(
        n.as_slice(),
        chars_of("content-length").as_slice(),
    ) || seq_equal(n.as_slice(), chars_of("transfer-encoding").as_slice()) || seq_equal(
        n.as_slice(),
        chars_of("connection").as_slice(),
    ) || seq_equal(n.as_slice(), chars_of("accept-encoding").as_slice())
}

/// A body read that timed out is a timeout; any other read failure an invalid response.
pub fn classify_body_error(timed_out: bool) -> (error: RemoteHttpError)
    ensures
        error@ == error_view(
            if timed_out {
                RemoteHttpErrorKind::Timeout
            } else {
                RemoteHttpErrorKind::InvalidResponse
            },
        ),
{
    if timed_out {
        RemoteHttpError::new(RemoteHttpErrorKind::Timeout)
    } else {
        RemoteHttpError::new(RemoteHttpErrorKind::InvalidResponse)
    }
}

pub fn check_cancellation(cancelled: bool) -> (result: Result<(), RemoteHttpError>)
    ensures
        cancelled ==> (result matches Err(e) && e@ == error_view(RemoteHttpErrorKind::Cancelled)),
        !cancelled ==> result is Ok,
{
    if cancelled {
        Err(RemoteHttpError::new(RemoteHttpErrorKind::Cancelled))
    } else {
        Ok(())
    }
}

/// `Retry-After` in whole seconds: only a single value of digits (one leading `+` allowed),
/// capped at the configured maximum.
pub open spec fn spec_retry_after(values: Seq<Seq<u8>>, cap: int) -> Option<int> {
    if values.len() != 1 || !visible_ascii(values[0]) {
        None
    } else {
        match crate::text::std_parse_u64(crate::http_policy::bytes_text(values[0])) {
            None => None,
            Some(secs) => Some(
                if secs * 1_000_000_000 <= cap {
                    secs * 1_000_000_000
                } else {
                    cap
                },
            ),
        }
    }
}

pub fn parse_retry_after(values: &Vec<Vec<u8>>, options: &RemoteHttpOptions) -> (delay: Option<
    Duration,
>)
    ensures
        crate::hls::opt_duration_view(delay) == spec_retry_after(
            values@.map_values(|v: Vec<u8>| v@),
            options.retry_after_max_delay@,
        ),
{
    let ghost views = values@.map_values(|v: Vec<u8>| v@);
    if values.len() != 1 {
        return None;
    }
    assert(views[0] == values@[0]@);
    if !crate::http_policy::is_visible_ascii(values[0].as_slice()) {
        return None;
    }
    let mut text: Vec<char> = Vec::new();
    let bytes = values[0].as_slice();
    let mut i: usize = 0;
    while i < bytes.len()
        invariant
            i <= bytes@.len(),
            text@ == crate::http_policy::bytes_text(bytes@.take(i as int)),
        decreases bytes@.len() - i,
    {
        text.push(bytes[i] as char);
        proof {
            assert(crate::http_policy::bytes_text(bytes@.take(i + 1)) =~= crate::http_policy::bytes_text(
                bytes@.take(i as int),
            ).push(bytes@[i as int] as char));
        }
        i = i + 1;
    }
    proof {
        assert(bytes@.take(bytes@.len() as int) =~= bytes@);
    }
    let secs = crate::text::parse_u64_text(text.as_slice())?;
    Some(Duration::from_secs(secs).min(options.retry_after_max_delay))
}

/// A request URL: an absolute HTTP(S) URI without user information.
pub open spec fn spec_remote_uri(url: Seq<char>) -> Option<UriView> {
    match crate::uri::parsed_uri(url) {
        None => None,
        Some(u) => if !(u.scheme == Some("http"@) || u.scheme == Some("https"@))
            || u.authority is None || contains_char(u.authority->0, '@') {
            None
        } else {
            Some(u)
        },
    }
}

pub fn parse_remote_uri(url: &str) -> (result: Result<UriParts, RemoteHttpError>)
    ensures
        match spec_remote_uri(url@) {
            Some(u) => result matches Ok(p) && p@ == u,
            None => result matches Err(e) && e@ == error_view(RemoteHttpErrorKind::InvalidRequest),
        },
{
    let text = chars_of(url);
    let uri = match parse_uri(text.as_slice()) {
        Some(u) => u,
        None => {
            return Err(RemoteHttpError::new(RemoteHttpErrorKind::InvalidRequest));
        },
    };
    if !(opt_seq_is(&uri.scheme, "http") || opt_seq_is(&uri.scheme, "https")) {
        return Err(RemoteHttpError::new(RemoteHttpErrorKind::InvalidRequest));
    }
    let user = match &uri.authority {
        Some(a) => contains(a.as_slice(), '@'),
        None => {
            return Err(RemoteHttpError::new(RemoteHttpErrorKind::InvalidRequest));
        },
    };
    if user {
        return Err(RemoteHttpError::new(RemoteHttpErrorKind::InvalidRequest));
    }
    Ok(uri)
}

// ---------------------------------------------------------------------------------------------
// Requests
// ---------------------------------------------------------------------------------------------


/// An HTTP token character: an ASCII letter or digit, or one of ``!#$%&'*+-.^_`|~``.
pub open spec fn http_token_char(c: char) -> bool {
    ('a' <= c && c <= 'z') || ('A' <= c && c <= 'Z') || ('0' <= c && c <= '9') || c == '!' || c
        == '#' || c == '$' || c == '%' || c == '&' || c == '\'' || c == '*' || c == '+' || c == '-'
        || c == '.' || c == '^' || c == '_' || c == '`' || c == '|' || c == '~'
}

pub open spec fn http_token(s: Seq<char>) -> bool
    decreases s.len(),
{
    if s.len() == 0 {
        true
    } else {
        http_token_char(s[0]) && http_token(s.drop_first())
    }
}

/// A header name of 1 to 65535 token characters.
pub open spec fn http_token_name(s: Seq<char>) -> bool {
    1 <= s.len() <= 65535 && http_token(s)
}

/// The lower-case header name that `http::HeaderName::from_bytes` makes of a name's bytes: a
/// name of 1 to 65535 token characters, in lower case, or `None` for any other name.
pub open spec fn header_name(name: Seq<char>) -> Option<Seq<char>> {
    if http_token_name(name) {
        Some(crate::route_util::ascii_lowercase(name))
    } else {
        None
    }
}

/// Calls `ureq::http::HeaderName::from_bytes` on the UTF-8 bytes of a name and reads back the
/// accepted name's text, which that type keeps in lower case. The crate's table maps each token
/// character to itself and upper-case letters to lower case, refuses every other byte (all
/// bytes of non-ASCII characters among them), and accepts 1 to 65535 bytes, so the result is
/// [`header_name`].
#[verifier::external_body]
fn parse_header_name(name: &str) -> (result: Option<String>)
    ensures
        crate::track::opt_text(result) == header_name(name@),
{
    ureq::http::HeaderName::from_bytes(name.as_bytes()).ok().map(|n| n.as_str().to_string())
}

/// What `http::HeaderValue::from_str` accepts: no control character but the tab, and no DEL.
pub open spec fn header_value_ok(value: Seq<char>) -> bool {
    forall|i: int| 0 <= i < value.len() ==> (#[trigger] value[i] == '\t' || (value[i] >= ' '
        && value[i] != '\x7f'))
}

/// [`header_value_ok`], character by character.
pub open spec fn header_value_chars_ok(value: Seq<char>) -> bool
    decreases value.len(),
{
    if value.len() == 0 {
        true
    } else {
        (value[0] == '\t' || (value[0] >= ' ' && value[0] != '\x7f')) && header_value_chars_ok(
            value.drop_first(),
        )
    }
}

pub proof fn lemma_header_value_chars_ok(value: Seq<char>)
    requires
        header_value_chars_ok(value),
    ensures
        header_value_ok(value),
    decreases value.len(),
{
    if value.len() > 0 {
        lemma_header_value_chars_ok(value.drop_first());
        assert forall|i: int| 0 <= i < value.len() implies (#[trigger] value[i] == '\t' || (
        value[i] >= ' ' && value[i] != '\x7f')) by {
            if i > 0 {
                assert(value[i] == value.drop_first()[i - 1]);
            }
        }
    }
}

fn is_header_value(value: &str) -> (ok: bool)
    ensures
        ok == header_value_ok(value@),
{
    let chars = chars_of(value);
    let mut i: usize = 0;
    while i < chars.len()
        invariant
            i <= chars@.len(),
            chars@ == value@,
            forall|j: int| 0 <= j < i ==> (#[trigger] chars@[j] == '\t' || (chars@[j] >= ' '
                && chars@[j] != '\x7f')),
        decreases chars@.len() - i,
    {
        let c = chars[i];
        if !(c == '\t' || (c >= ' ' && c != '\x7f')) {
            return false;
        }
        i = i + 1;
    }
    true
}

/// A validated outbound request: method, URL, extra headers, body, retry mode and an optional
/// response ceiling of its own.
pub struct RemoteHttpRequest {
    method: RemoteHttpMethod,
    url: String,
    headers: Vec<(String, String)>,
    body: Vec<u8>,
    retry_mode: RemoteRetryMode,
    max_response_bytes: Option<u64>,
}

pub struct RequestView {
    pub method: RemoteHttpMethod,
    pub url: Seq<char>,
    pub headers: Seq<(Seq<char>, Seq<char>)>,
    pub body: Seq<u8>,
    pub retry_mode: RemoteRetryMode,
    pub max_response_bytes: Option<u64>,
}

pub open spec fn text_pairs(v: Seq<(String, String)>) -> Seq<(Seq<char>, Seq<char>)> {
    v.map_values(|p: (String, String)| (p.0@, p.1@))
}

impl View for RemoteHttpRequest {
    type V = RequestView;

    closed spec fn view(&self) -> RequestView {
        RequestView {
            method: self.method,
            url: self.url@,
            headers: text_pairs(self.headers@),
            body: self.body@,
            retry_mode: self.retry_mode,
            max_response_bytes: self.max_response_bytes,
        }
    }
}

fn copy_body(body: &[u8]) -> (copy: Vec<u8>)
    ensures
        copy@ == body@,
{
    let mut copy: Vec<u8> = Vec::new();
    let mut i: usize = 0;
    while i < body.len()
        invariant
            i <= body@.len(),
            copy@ == body@.take(i as int),
        decreases body@.len() - i,
    {
        copy.push(body[i]);
        proof {
            assert(copy@ =~= body@.take(i + 1));
        }
        i = i + 1;
    }
    proof {
        assert(body@.take(i as int) =~= body@);
    }
    copy
}

impl RemoteHttpRequest {
    /// An idempotent GET request; the URL must be an absolute HTTP(S) URI without user
    /// information, and is kept in its normalized form.
    pub fn get(url: &str) -> (result: Result<Self, RemoteHttpError>)
        ensures
            match spec_remote_uri(url@) {
                Some(u) => result matches Ok(r) && r@ == (RequestView {
                    method: RemoteHttpMethod::Get,
                    url: u.text,
                    headers: Seq::empty(),
                    body: Seq::empty(),
                    retry_mode: RemoteRetryMode::Idempotent,
                    max_response_bytes: None,
                }),
                None => result matches Err(e) && e@ == error_view(
                    RemoteHttpErrorKind::InvalidRequest,
                ),
            },
    {
        let uri = parse_remote_uri(url)?;
        let request = RemoteHttpRequest {
            method: RemoteHttpMethod::Get,
            url: crate::text::string_from_chars(uri.text.as_slice()),
            headers: Vec::new(),
            body: Vec::new(),
            retry_mode: RemoteRetryMode::Idempotent,
            max_response_bytes: None,
        };
        proof {
            assert(text_pairs(request.headers@) =~= Seq::<(Seq<char>, Seq<char>)>::empty());
        }
        Ok(request)
    }

    /// A POST request, never retried unless marked idempotent; the body must fit the hard
    /// request ceiling.
    pub fn post(url: &str, body: &[u8]) -> (result: Result<Self, RemoteHttpError>)
        ensures
            body@.len() > MAX_CONFIGURED_REQUEST_BYTES ==> (result matches Err(e) && e@
                == error_view(RemoteHttpErrorKind::RequestTooLarge)),
            body@.len() <= MAX_CONFIGURED_REQUEST_BYTES ==> match spec_remote_uri(url@) {
                Some(u) => result matches Ok(r) && r@ == (RequestView {
                    method: RemoteHttpMethod::Post,
                    url: u.text,
                    headers: Seq::empty(),
                    body: body@,
                    retry_mode: RemoteRetryMode::Never,
                    max_response_bytes: None,
                }),
                None => result matches Err(e) && e@ == error_view(
                    RemoteHttpErrorKind::InvalidRequest,
                ),
            },
    {
        if body.len() as u64 > MAX_CONFIGURED_REQUEST_BYTES {
            return Err(RemoteHttpError::new(RemoteHttpErrorKind::RequestTooLarge));
        }
        let uri = parse_remote_uri(url)?;
        let request = RemoteHttpRequest {
            method: RemoteHttpMethod::Post,
            url: crate::text::string_from_chars(uri.text.as_slice()),
            headers: Vec::new(),
            body: copy_body(body),
            retry_mode: RemoteRetryMode::Never,
            max_response_bytes: None,
        };
        proof {
            assert(text_pairs(request.headers@) =~= Seq::<(Seq<char>, Seq<char>)>::empty());
        }
        Ok(request)
    }

    /// Appends a header: the name must be valid and not owned by the transport, and the value
    /// a valid header value. The name is kept in lower case.
    pub fn header(self, name: &str, value: &str) -> (result: Result<Self, RemoteHttpError>)
        ensures
            http_token_name(name@) ==> header_name(name@) == Some(
                crate::route_util::ascii_lowercase(name@),
            ),
            match header_name(name@) {
                Some(n) => if spec_transport_owned_header(n) || !header_value_ok(value@) {
                    result matches Err(e) && e@ == error_view(RemoteHttpErrorKind::InvalidRequest)
                } else {
                    result matches Ok(r) && r@ == (RequestView {
                        headers: self@.headers.push((n, value@)),
                        ..self@
                    })
                },
                None => result matches Err(e) && e@ == error_view(
                    RemoteHttpErrorKind::InvalidRequest,
                ),
            },
    {
        let n = match parse_header_name(name) {
            Some(n) => n,
            None => {
                return Err(RemoteHttpError::new(RemoteHttpErrorKind::InvalidRequest));
            },
        };
        if is_transport_owned_header(n.as_str()) || !is_header_value(value) {
            return Err(RemoteHttpError::new(RemoteHttpErrorKind::InvalidRequest));
        }
        let mut request = self;
        let ghost before = text_pairs(request.headers@);
        request.headers.push((n, crate::track::copy_text(value)));
        proof {
            assert(text_pairs(request.headers@) =~= before.push((header_name(name@)->0, value@)));
        }
        Ok(request)
    }

    /// Sets whether a transient failure may repeat the request.
    pub fn retry_mode(self, retry_mode: RemoteRetryMode) -> (request: Self)
        ensures
            request@ == (RequestView { retry_mode, ..self@ }),
    {
        let mut request = self;
        request.retry_mode = retry_mode;
        request
    }

    /// Applies a response ceiling of its own: 1 byte up to the hard response ceiling.
    pub fn max_response_bytes(self, max_response_bytes: u64) -> (result: Result<
        Self,
        RemoteHttpError,
    >)
        ensures
            0 < max_response_bytes <= MAX_CONFIGURED_RESPONSE_BYTES ==> (result matches Ok(r) && r@
                == (RequestView { max_response_bytes: Some(max_response_bytes), ..self@ })),
            !(0 < max_response_bytes <= MAX_CONFIGURED_RESPONSE_BYTES) ==> (result matches Err(e)
                && e@ == error_view(RemoteHttpErrorKind::InvalidRequest)),
    {
        if max_response_bytes == 0 || max_response_bytes > MAX_CONFIGURED_RESPONSE_BYTES {
            return Err(RemoteHttpError::new(RemoteHttpErrorKind::InvalidRequest));
        }
        let mut request = self;
        request.max_response_bytes = Some(max_response_bytes);
        Ok(request)
    }

    pub fn method(&self) -> (method: RemoteHttpMethod)
        ensures
            method == self@.method,
    {
        self.method
    }

    pub fn url(&self) -> (url: &str)
        ensures
            url@ == self@.url,
    {
        self.url.as_str()
    }

    pub fn headers(&self) -> (headers: &Vec<(String, String)>)
        ensures
            text_pairs(headers@) == self@.headers,
    {
        &self.headers
    }

    pub fn body(&self) -> (body: &[u8])
        ensures
            body@ == self@.body,
    {
        self.body.as_slice()
    }
}

// ---------------------------------------------------------------------------------------------
// Execution decisions
// ---------------------------------------------------------------------------------------------

/// The response ceiling of a request under a client policy: the body must fit the client's
/// request limit, and the request's own ceiling may not exceed the client's.
pub open spec fn spec_request_ceiling(options: RemoteHttpOptions, request: RequestView) -> Result<
    u64,
    RemoteHttpErrorKind,
> {
    let ceiling = match request.max_response_bytes {
        Some(m) => m,
        None => options.max_response_bytes,
    };
    if request.body.len() > options.max_request_bytes {
        Err(RemoteHttpErrorKind::RequestTooLarge)
    } else if ceiling > options.max_response_bytes {
        Err(RemoteHttpErrorKind::InvalidRequest)
    } else {
        Ok(ceiling)
    }
}

pub fn request_ceiling(options: &RemoteHttpOptions, request: &RemoteHttpRequest) -> (result: Result<
    u64,
    RemoteHttpError,
>)
    ensures
        match spec_request_ceiling(*options, request@) {
            Ok(c) => result == Ok::<u64, RemoteHttpError>(c),
            Err(k) => result matches Err(e) && e@ == error_view(k),
        },
{
    if request.body.len() as u64 > options.max_request_bytes {
        return Err(RemoteHttpError::new(RemoteHttpErrorKind::RequestTooLarge));
    }
    let ceiling = match request.max_response_bytes {
        Some(m) => m,
        None => options.max_response_bytes,
    };
    if ceiling > options.max_response_bytes {
        return Err(RemoteHttpError::new(RemoteHttpErrorKind::InvalidRequest));
    }
    Ok(ceiling)
}

/// What one attempt gave: a response status with the server's retry delay, or a transport
/// failure, whether it may be retried and its class.
#[derive(Clone, Copy, Debug, PartialEq, Eq)]
pub enum CallOutcome {
    Response { status: u16, retry_after: Option<Duration> },
    TransportFailure { retriable: bool, kind: RemoteHttpErrorKind },
}

/// Why an attempt failed before a response arrived, as the HTTP client reports it: the
/// network access policy refused the destination, the client timed out, the URI or request was
/// malformed, the request body was over the client's limit, an I/O failure of the given kind,
/// or any other client failure.
#[derive(Clone, Copy, Debug, PartialEq, Eq, Structural)]
pub enum TransportFault {
    BlockedDestination,
    Timeout,
    BadUri,
    Http,
    BodyExceedsLimit,
    Io(IoFaultKind),
    Other,
}

/// The kind of an I/O failure under a transport fault.
#[derive(Clone, Copy, Debug, PartialEq, Eq, Structural)]
pub enum IoFaultKind {
    ConnectionAborted,
    ConnectionRefused,
    ConnectionReset,
    TimedOut,
    UnexpectedEof,
    Other,
}

/// Timeouts and connection-level I/O failures may be retried; nothing else may.
pub open spec fn spec_fault_retriable(fault: TransportFault) -> bool {
    match fault {
        TransportFault::Timeout => true,
        TransportFault::Io(kind) => kind != IoFaultKind::Other,
        _ => false,
    }
}

/// The error class of a transport fault.
pub open spec fn spec_fault_kind(fault: TransportFault) -> RemoteHttpErrorKind {
    match fault {
        TransportFault::BlockedDestination => RemoteHttpErrorKind::DestinationDenied,
        TransportFault::Timeout => RemoteHttpErrorKind::Timeout,
        TransportFault::BadUri | TransportFault::Http => RemoteHttpErrorKind::InvalidRequest,
        TransportFault::BodyExceedsLimit => RemoteHttpErrorKind::RequestTooLarge,
        _ => RemoteHttpErrorKind::Transport,
    }
}

/// The outcome of an attempt that ended in a transport fault.
pub fn transport_outcome(fault: TransportFault) -> (outcome: CallOutcome)
    ensures
        outcome == (CallOutcome::TransportFailure {
            retriable: spec_fault_retriable(fault),
            kind: spec_fault_kind(fault),
        }),
{
    let retriable = match fault {
        TransportFault::Timeout => true,
        TransportFault::Io(kind) => match kind {
            IoFaultKind::Other => false,
            _ => true,
        },
        _ => false,
    };
    let kind = match fault {
        TransportFault::BlockedDestination => RemoteHttpErrorKind::DestinationDenied,
        TransportFault::Timeout => RemoteHttpErrorKind::Timeout,
        TransportFault::BadUri => RemoteHttpErrorKind::InvalidRequest,
        TransportFault::Http => RemoteHttpErrorKind::InvalidRequest,
        TransportFault::BodyExceedsLimit => RemoteHttpErrorKind::RequestTooLarge,
        _ => RemoteHttpErrorKind::Transport,
    };
    CallOutcome::TransportFailure { retriable, kind }
}

/// What to do after an attempt: wait and retry, read the body, or fail.
#[derive(Clone, Copy, Debug, PartialEq, Eq)]
pub enum CallDecision {
    Retry(Duration),
    ReadBody,
    Fail(RemoteHttpError),
}

/// After attempt number `retries + 1`: a retriable status or transport failure of an
/// idempotent request is retried while retries remain, after the retry delay; otherwise a
/// status outside 2xx fails as classified, a transport failure fails with its class, and a
/// success is read.
pub open spec fn spec_call_decision(
    options: RemoteHttpOptions,
    retry_mode: RemoteRetryMode,
    retries: u32,
    outcome: CallOutcome,
) -> CallDecisionView {
    let may_retry = retry_mode == RemoteRetryMode::Idempotent && retries < options.max_retries;
    match outcome {
        CallOutcome::Response { status, retry_after } => if spec_retriable_status(status)
            && may_retry {
            CallDecisionView::Retry(
                spec_retry_delay(options, retries, crate::hls::opt_duration_view(retry_after)),
            )
        } else if !(200 <= status < 300) {
            CallDecisionView::Fail(
                RemoteErrorView {
                    kind: status_kind(status),
                    status: Some(status),
                    retry_after: if status == 429 {
                        crate::hls::opt_duration_view(retry_after)
                    } else {
                        None
                    },
                },
            )
        } else {
            CallDecisionView::ReadBody
        },
        CallOutcome::TransportFailure { retriable, kind } => if retriable && may_retry {
            CallDecisionView::Retry(spec_retry_delay(options, retries, None))
        } else {
            CallDecisionView::Fail(error_view(kind))
        },
    }
}

pub enum CallDecisionView {
    Retry(int),
    ReadBody,
    Fail(RemoteErrorView),
}

pub open spec fn decision_view(d: CallDecision) -> CallDecisionView {
    match d {
        CallDecision::Retry(delay) => CallDecisionView::Retry(delay@),
        CallDecision::ReadBody => CallDecisionView::ReadBody,
        CallDecision::Fail(e) => CallDecisionView::Fail(e@),
    }
}

pub fn decide_call(
    options: &RemoteHttpOptions,
    request: &RemoteHttpRequest,
    retries: u32,
    outcome: CallOutcome,
) -> (decision: CallDecision)
    ensures
        decision_view(decision) == spec_call_decision(*options, request@.retry_mode, retries, outcome),
{
    let may_retry = request.retry_mode == RemoteRetryMode::Idempotent && retries < options.max_retries;
    match outcome {
        CallOutcome::Response { status, retry_after } => if is_retriable_status(status)
            && may_retry {
            CallDecision::Retry(retry_delay(options, retries, retry_after))
        } else if !(200 <= status && status < 300) {
            CallDecision::Fail(classify_status(status, retry_after))
        } else {
            CallDecision::ReadBody
        },
        CallOutcome::TransportFailure { retriable, kind } => if retriable && may_retry {
            CallDecision::Retry(retry_delay(options, retries, None))
        } else {
            CallDecision::Fail(RemoteHttpError::new(kind))
        },
    }
}

/// A response is refused when a `Content-Encoding` value is anything but `identity` (in any
/// letter case), and when its declared length exceeds the ceiling.
pub open spec fn spec_response_framing(
    content_encodings: Seq<Seq<u8>>,
    content_length: Option<u64>,
    ceiling: u64,
) -> Result<(), RemoteHttpErrorKind> {
    if exists|i: int|
        0 <= i < content_encodings.len() && !(visible_ascii(#[trigger] content_encodings[i])
            && crate::route_util::ascii_lowercase(crate::http_policy::bytes_text(content_encodings[i]))
            == "identity"@) {
        Err(RemoteHttpErrorKind::InvalidResponse)
    } else if content_length matches Some(n) && n > ceiling {
        Err(RemoteHttpErrorKind::ResponseTooLarge)
    } else {
        Ok(())
    }
}

pub fn check_response_framing(
    content_encodings: &Vec<Vec<u8>>,
    content_length: Option<u64>,
    ceiling: u64,
) -> (result: Result<(), RemoteHttpError>)
    ensures
        match spec_response_framing(
            content_encodings@.map_values(|v: Vec<u8>| v@),
            content_length,
            ceiling,
        ) {
            Ok(()) => result is Ok,
            Err(k) => result matches Err(e) && e@ == error_view(k),
        },
{
    let ghost encs = content_encodings@.map_values(|v: Vec<u8>| v@);
    let mut i: usize = 0;
    while i < content_encodings.len()
        invariant
            i <= content_encodings@.len(),
            encs == content_encodings@.map_values(|v: Vec<u8>| v@),
            forall|j: int|
                0 <= j < i ==> (visible_ascii(#[trigger] encs[j])
                    && crate::route_util::ascii_lowercase(crate::http_policy::bytes_text(encs[j]))
                    == "identity"@),
        decreases content_encodings@.len() - i,
    {
        let value = &content_encodings[i];
        let ok = crate::http_policy::is_visible_ascii(value.as_slice()) && seq_equal(
            crate::route_util::to_ascii_lowercase(
                crate::http_policy::ascii_text(value.as_slice()).as_slice(),
            ).as_slice(),
            chars_of("identity").as_slice(),
        );
        if !ok {
            proof {
                assert(encs[i as int] == content_encodings@[i as int]@);
            }
            return Err(RemoteHttpError::new(RemoteHttpErrorKind::InvalidResponse));
        }
        i = i + 1;
    }
    match content_length {
        Some(n) => if n > ceiling {
            return Err(RemoteHttpError::new(RemoteHttpErrorKind::ResponseTooLarge));
        },
        None => {},
    }
    Ok(())
}

/// How much of a body to read next: up to a buffer of what the ceiling still allows, or,
/// once the ceiling is reached, a one-byte probe for the end of the body.
#[derive(Clone, Copy, Debug, PartialEq, Eq, Structural)]
pub enum BodyRead {
    Chunk(usize),
    ProbeEnd,
}

pub fn next_body_read(body_len: usize, ceiling: u64, buffer_len: usize) -> (read: BodyRead)
    ensures
        body_len >= ceiling || buffer_len == 0 ==> read == BodyRead::ProbeEnd,
        body_len < ceiling && buffer_len > 0 ==> read == BodyRead::Chunk(
            (if ceiling - body_len < buffer_len {
                ceiling - body_len
            } else {
                buffer_len as int
            }) as usize,
        ),
{
    if body_len as u64 >= ceiling || buffer_len == 0 {
        return BodyRead::ProbeEnd;
    }
    let remaining = ceiling - body_len as u64;
    if remaining < buffer_len as u64 {
        BodyRead::Chunk(remaining as usize)
    } else {
        BodyRead::Chunk(buffer_len)
    }
}

// ---------------------------------------------------------------------------------------------
// Responses
// ---------------------------------------------------------------------------------------------

/// A successful bounded response: status, headers (lower-case names with raw values) and body.
pub struct RemoteHttpResponse {
    status: u16,
    headers: Vec<(String, Vec<u8>)>,
    body: Vec<u8>,
}

pub open spec fn header_values(headers: Seq<(String, Vec<u8>)>, name: Seq<char>) -> Seq<Seq<u8>>
    decreases headers.len(),
{
    if headers.len() == 0 {
        Seq::empty()
    } else {
        let rest = header_values(headers.drop_last(), name);
        if headers.last().0@ == name {
            rest.push(headers.last().1@)
        } else {
            rest
        }
    }
}

impl RemoteHttpResponse {
    pub closed spec fn spec_status(&self) -> u16 {
        self.status
    }

    pub closed spec fn spec_headers(&self) -> Seq<(String, Vec<u8>)> {
        self.headers@
    }

    pub closed spec fn spec_body(&self) -> Seq<u8> {
        self.body@
    }

    pub fn new(status: u16, headers: Vec<(String, Vec<u8>)>, body: Vec<u8>) -> (response: Self)
        ensures
            response.spec_status() == status,
            response.spec_headers() == headers@,
            response.spec_body() == body@,
    {
        RemoteHttpResponse { status, headers, body }
    }

    pub fn status(&self) -> (status: u16)
        ensures
            status == self.spec_status(),
    {
        self.status
    }

    pub fn body(&self) -> (body: &[u8])
        ensures
            body@ == self.spec_body(),
    {
        self.body.as_slice()
    }

    pub fn into_body(self) -> (body: Vec<u8>)
        ensures
            body@ == self.spec_body(),
    {
        self.body
    }

    /// One ASCII header value: the name must be valid and occur exactly once, with a value of
    /// visible ASCII.
    pub fn header(&self, name: &str) -> (value: Option<String>)
        ensures
            crate::track::opt_text(value) == match header_name(name@) {
                None => None,
                Some(n) => {
                    let values = header_values(self.spec_headers(), n);
                    if values.len() == 1 && visible_ascii(values[0]) {
                        Some(crate::http_policy::bytes_text(values[0]))
                    } else {
                        None
                    }
                },
            },
    {
        let n = match parse_header_name(name) {
            Some(n) => n,
            None => {
                return None;
            },
        };
        let target = chars_of(n.as_str());
        let mut found: Vec<&Vec<u8>> = Vec::new();
        let mut i: usize = 0;
        while i < self.headers.len()
            invariant
                i <= self.headers@.len(),
                target@ == n@,
                found@.len() == header_values(self.headers@.take(i as int), n@).len(),
                found@.len() > 0 ==> found@[0]@ == header_values(self.headers@.take(i as int), n@)[0],
            decreases self.headers@.len() - i,
        {
            proof {
                assert(self.headers@.take(i + 1).drop_last() =~= self.headers@.take(i as int));
            }
            if seq_equal(chars_of(self.headers[i].0.as_str()).as_slice(), target.as_slice()) {
                found.push(&self.headers[i].1);
            }
            i = i + 1;
        }
        proof {
            assert(self.headers@.take(i as int) =~= self.headers@);
        }
        if found.len() != 1 || !crate::http_policy::is_visible_ascii(found[0].as_slice()) {
            return None;
        }
        Some(crate::text::string_from_chars(crate::http_policy::ascii_text(found[0].as_slice()).as_slice()))
    }
}

pub open spec fn with_header_view(request: RequestView, name: Seq<char>, value: Seq<char>) -> RequestView {
    RequestView { headers: request.headers.push((name, value)), ..request }
}

/// Adds a header that is known to be accepted: a token name that the transport does not own
/// and a valid value. It is stored under the lower-case name.
pub fn with_token_header(request: RemoteHttpRequest, name: &str, value: &str) -> (result:
    RemoteHttpRequest)
    requires
        http_token_name(name@),
        !spec_transport_owned_header(crate::route_util::ascii_lowercase(name@)),
        header_value_ok(value@),
    ensures
        result@ == with_header_view(request@, crate::route_util::ascii_lowercase(name@), value@),
{
    match request.header(name, value) {
        Ok(r) => r,
        Err(_) => vstd::pervasive::unreached(),
    }
}

// ---------------------------------------------------------------------------------------------
// Building source requests
// ---------------------------------------------------------------------------------------------

/// Why building a request failed: its URL, its body, a header before the response ceiling (by
/// position), the response ceiling, or a header after it (by position).
#[derive(Clone, Copy, Debug, PartialEq, Eq, Structural)]
pub enum RequestBuildError {
    Url,
    Body,
    Header(usize),
    Ceiling,
    TrailingHeader(usize),
}

/// Header names are token names the transport does not own.
pub open spec fn header_names_ok(headers: Seq<(Seq<char>, Seq<char>)>) -> bool {
    forall|i: int|
        0 <= i < headers.len() ==> http_token_name(#[trigger] headers[i].0)
            && !spec_transport_owned_header(crate::route_util::ascii_lowercase(headers[i].0))
}

/// The position of the first header at or after `i` whose value is refused.
pub open spec fn first_bad_value(headers: Seq<(Seq<char>, Seq<char>)>, i: int) -> Option<int>
    decreases headers.len() - i,
{
    if i < 0 || i >= headers.len() {
        None
    } else if !header_value_ok(headers[i].1) {
        Some(i)
    } else {
        first_bad_value(headers, i + 1)
    }
}

/// Headers as a request stores them: names in lower case.
pub open spec fn stored_headers(headers: Seq<(Seq<char>, Seq<char>)>) -> Seq<(Seq<char>, Seq<char>)> {
    headers.map_values(|h: (Seq<char>, Seq<char>)| (crate::route_util::ascii_lowercase(h.0), h.1))
}

pub open spec fn str_pairs(headers: Seq<(&str, &str)>) -> Seq<(Seq<char>, Seq<char>)> {
    headers.map_values(|h: (&str, &str)| (h.0@, h.1@))
}

/// A GET (no body) or POST request for `url`, then the leading headers in order, the response
/// ceiling, the retry mode and the trailing headers; the first step that is refused names the
/// failure.
pub open spec fn spec_build_request(
    url: Seq<char>,
    body: Option<Seq<u8>>,
    headers: Seq<(Seq<char>, Seq<char>)>,
    ceiling: u64,
    retry_mode: RemoteRetryMode,
    trailing: Seq<(Seq<char>, Seq<char>)>,
) -> Result<RequestView, RequestBuildError> {
    if body matches Some(b) && b.len() > MAX_CONFIGURED_REQUEST_BYTES {
        Err(RequestBuildError::Body)
    } else {
        match spec_remote_uri(url) {
            None => Err(RequestBuildError::Url),
            Some(u) => match first_bad_value(headers, 0) {
                Some(i) => Err(RequestBuildError::Header(i as usize)),
                None => if !(0 < ceiling <= MAX_CONFIGURED_RESPONSE_BYTES) {
                    Err(RequestBuildError::Ceiling)
                } else {
                    match first_bad_value(trailing, 0) {
                        Some(i) => Err(RequestBuildError::TrailingHeader(i as usize)),
                        None => Ok(
                            RequestView {
                                method: if body is Some {
                                    RemoteHttpMethod::Post
                                } else {
                                    RemoteHttpMethod::Get
                                },
                                url: u.text,
                                headers: stored_headers(headers) + stored_headers(trailing),
                                body: match body {
                                    Some(b) => b,
                                    None => Seq::empty(),
                                },
                                retry_mode,
                                max_response_bytes: Some(ceiling),
                            },
                        ),
                    }
                },
            },
        }
    }
}

proof fn lemma_first_bad_skip(headers: Seq<(Seq<char>, Seq<char>)>, i: int)
    requires
        0 <= i < headers.len(),
        header_value_ok(headers[i].1),
    ensures
        first_bad_value(headers, i) == first_bad_value(headers, i + 1),
{
}

/// Appends headers in order; stops at the first refused value and reports its position.
fn add_headers(request: RemoteHttpRequest, headers: &[(&str, &str)]) -> (result: Result<
    RemoteHttpRequest,
    usize,
>)
    requires
        header_names_ok(str_pairs(headers@)),
    ensures
        match first_bad_value(str_pairs(headers@), 0) {
            Some(i) => result == Err::<RemoteHttpRequest, usize>(i as usize),
            None => result matches Ok(r) && r@ == (RequestView {
                headers: request@.headers + stored_headers(str_pairs(headers@)),
                ..request@
            }),
        },
{
    let ghost hs = str_pairs(headers@);
    let ghost start = request@;
    let mut r = request;
    let mut i: usize = 0;
    while i < headers.len()
        invariant
            i <= headers@.len(),
            hs == str_pairs(headers@),
            header_names_ok(hs),
            first_bad_value(hs, 0) == first_bad_value(hs, i as int),
            r@ == (RequestView {
                headers: start.headers + stored_headers(hs.take(i as int)),
                ..start
            }),
        decreases headers@.len() - i,
    {
        let (name, value) = headers[i];
        assert(hs[i as int] == (name@, value@));
        assert(http_token_name(hs[i as int].0));
        match r.header(name, value) {
            Ok(next) => {
                proof {
                    lemma_first_bad_skip(hs, i as int);
                    assert(stored_headers(hs.take(i + 1)) =~= stored_headers(hs.take(i as int)).push(
                        (crate::route_util::ascii_lowercase(name@), value@),
                    ));
                    assert(start.headers + stored_headers(hs.take(i + 1)) =~= (start.headers
                        + stored_headers(hs.take(i as int))).push(
                        (crate::route_util::ascii_lowercase(name@), value@),
                    ));
                }
                r = next;
            },
            Err(_) => {
                return Err(i);
            },
        }
        i = i + 1;
    }
    proof {
        assert(hs.take(headers@.len() as int) =~= hs);
    }
    Ok(r)
}

/// Builds a source request step by step as [`spec_build_request`] states.
pub fn build_request(
    url: &str,
    body: Option<&[u8]>,
    headers: &[(&str, &str)],
    ceiling: u64,
    retry_mode: RemoteRetryMode,
    trailing: &[(&str, &str)],
) -> (result: Result<RemoteHttpRequest, RequestBuildError>)
    requires
        header_names_ok(str_pairs(headers@)),
        header_names_ok(str_pairs(trailing@)),
    ensures
        match spec_build_request(
            url@,
            match body {
                Some(b) => Some(b@),
                None => None,
            },
            str_pairs(headers@),
            ceiling,
            retry_mode,
            str_pairs(trailing@),
        ) {
            Ok(v) => result matches Ok(r) && r@ == v,
            Err(e) => result == Err::<RemoteHttpRequest, RequestBuildError>(e),
        },
{
    let base = match body {
        Some(b) => {
            if b.len() as u64 > MAX_CONFIGURED_REQUEST_BYTES {
                return Err(RequestBuildError::Body);
            }
            RemoteHttpRequest::post(url, b)
        },
        None => RemoteHttpRequest::get(url),
    };
    let base = match base {
        Ok(r) => r,
        Err(_) => {
            return Err(RequestBuildError::Url);
        },
    };
    let r = match add_headers(base, headers) {
        Ok(r) => r,
        Err(i) => {
            return Err(RequestBuildError::Header(i));
        },
    };
    let r = match r.max_response_bytes(ceiling) {
        Ok(r) => r,
        Err(_) => {
            return Err(RequestBuildError::Ceiling);
        },
    };
    let r = r.retry_mode(retry_mode);
    let r = match add_headers(r, trailing) {
        Ok(r) => r,
        Err(i) => {
            return Err(RequestBuildError::TrailingHeader(i));
        },
    };
    proof {
        assert(Seq::<(Seq<char>, Seq<char>)>::empty() + stored_headers(str_pairs(headers@))
            =~= stored_headers(str_pairs(headers@)));
    }
    Ok(r)
}

/// The header names that source requests set are token names the transport does not own, with
/// the lower-case forms given.
pub proof fn lemma_source_header_names()
    ensures
        http_token_name("Accept"@),
        crate::route_util::ascii_lowercase("Accept"@) == "accept"@,
        !spec_transport_owned_header("accept"@),
        http_token_name("Authorization"@),
        crate::route_util::ascii_lowercase("Authorization"@) == "authorization"@,
        !spec_transport_owned_header("authorization"@),
        http_token_name("User-Agent"@),
        crate::route_util::ascii_lowercase("User-Agent"@) == "user-agent"@,
        !spec_transport_owned_header("user-agent"@),
        http_token_name("Content-Type"@),
        crate::route_util::ascii_lowercase("Content-Type"@) == "content-type"@,
        !spec_transport_owned_header("content-type"@),
        http_token_name("Client-Id"@),
        crate::route_util::ascii_lowercase("Client-Id"@) == "client-id"@,
        !spec_transport_owned_header("client-id"@),
        http_token_name("X-Device-Id"@),
        crate::route_util::ascii_lowercase("X-Device-Id"@) == "x-device-id"@,
        !spec_transport_owned_header("x-device-id"@),
        http_token_name("X-Yandex-Music-Client"@),
        crate::route_util::ascii_lowercase("X-Yandex-Music-Client"@) == "x-yandex-music-client"@,
        !spec_transport_owned_header("x-yandex-music-client"@),
{
    reveal_strlit("Accept");
    reveal_strlit("accept");
    reveal_strlit("Authorization");
    reveal_strlit("authorization");
    reveal_strlit("User-Agent");
    reveal_strlit("user-agent");
    reveal_strlit("Content-Type");
    reveal_strlit("content-type");
    reveal_strlit("Client-Id");
    reveal_strlit("client-id");
    reveal_strlit("X-Device-Id");
    reveal_strlit("x-device-id");
    reveal_strlit("X-Yandex-Music-Client");
    reveal_strlit("x-yandex-music-client");
    reveal_strlit("host");
    reveal_strlit("content-length");
    reveal_strlit("transfer-encoding");
    reveal_strlit("connection");
    reveal_strlit("accept-encoding");
    reveal_with_fuel(http_token, 22);
    assert(crate::route_util::ascii_lowercase("Accept"@) =~= "accept"@);
    assert(crate::route_util::ascii_lowercase("Authorization"@) =~= "authorization"@);
    assert(crate::route_util::ascii_lowercase("User-Agent"@) =~= "user-agent"@);
    assert(crate::route_util::ascii_lowercase("Content-Type"@) =~= "content-type"@);
    assert(crate::route_util::ascii_lowercase("Client-Id"@) =~= "client-id"@);
    assert(crate::route_util::ascii_lowercase("X-Device-Id"@) =~= "x-device-id"@);
    assert(crate::route_util::ascii_lowercase("X-Yandex-Music-Client"@)
        =~= "x-yandex-music-client"@);
    assert("accept"@.len() != "connection"@.len());
    assert("accept"@[1] != "accept-encoding"@[1] || "accept"@.len() != "accept-encoding"@.len());
    assert("content-type"@[8] != "content-length"@[8]);
    assert("client-id"@[1] != "connection"@[1]);
}

/// The literal header names that requests of this crate set are tokens, not owned by the
/// transport, and have the lower-case forms given.
pub proof fn lemma_user_agent()
    ensures
        http_token_name("User-Agent"@),
        crate::route_util::ascii_lowercase("User-Agent"@) == "user-agent"@,
        !spec_transport_owned_header("user-agent"@),
{
    reveal_strlit("User-Agent");
    reveal_strlit("user-agent");
    reveal_strlit("host");
    reveal_strlit("content-length");
    reveal_strlit("transfer-encoding");
    reveal_strlit("connection");
    reveal_strlit("accept-encoding");
    reveal_with_fuel(http_token, 11);
    assert(crate::route_util::ascii_lowercase("User-Agent"@) =~= "user-agent"@);
    assert("user-agent"@[0] != "connection"@[0]);
}

// ---------------------------------------------------------------------------------------------
// Laws of the retry policy
// ---------------------------------------------------------------------------------------------

/// A retry never waits less than the server asked for.
pub proof fn law_retry_delay_honours_retry_after(options: RemoteHttpOptions, retry: u32, retry_after: int)
    ensures
        spec_retry_delay(options, retry, Some(retry_after)) >= retry_after,
{
}

/// Without a server delay, a retry waits at most the configured maximum; with one, at most the
/// larger of the two.
pub proof fn law_retry_delay_is_capped(options: RemoteHttpOptions, retry: u32, retry_after: Option<int>)
    ensures
        spec_retry_delay(options, retry, retry_after) <= match retry_after {
            None => options.retry_max_delay@,
            Some(d) => if d >= options.retry_max_delay@ {
                d
            } else {
                options.retry_max_delay@
            },
        },
{
}

/// Later retries never wait less than earlier ones (exponential backoff).
pub proof fn law_retry_delay_is_monotone(options: RemoteHttpOptions, earlier: u32, later: u32)
    requires
        earlier <= later,
    ensures
        spec_retry_delay(options, earlier, None) <= spec_retry_delay(options, later, None),
{
    let s1: nat = if earlier < 31 {
        earlier as nat
    } else {
        31nat
    };
    let s2: nat = if later < 31 {
        later as nat
    } else {
        31nat
    };
    lemma_pow2_u32_mono(s1, s2);
    lemma_pow2_u32_pos(s1);
    let base = options.retry_base_delay@;
    crate::duration::lemma_duration_nonnegative(options.retry_base_delay);
    let p1 = pow2_u32(s1);
    let p2 = pow2_u32(s2);
    assert(base * p1 <= base * p2) by (nonlinear_arith)
        requires
            base >= 0,
            0 < p1 <= p2,
    ;
}

/// Only an idempotent request is retried, and only while retries remain; a 2xx response is
/// read.
pub proof fn law_call_decision_bounds_retries(
    options: RemoteHttpOptions,
    retry_mode: RemoteRetryMode,
    retries: u32,
    outcome: CallOutcome,
)
    ensures
        spec_call_decision(options, retry_mode, retries, outcome) is Retry ==> retry_mode
            == RemoteRetryMode::Idempotent && retries < options.max_retries,
        outcome matches CallOutcome::Response { status, .. } && 200 <= status < 300
            ==> spec_call_decision(options, retry_mode, retries, outcome) is ReadBody,
{
}

} // verus!
