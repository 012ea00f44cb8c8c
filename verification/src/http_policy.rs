use vstd::prelude::*;

use crate::duration::Duration;
use crate::media::MediaError;
use crate::text::{chars_of, has_byte_prefix, parse_u64_digits, split_once, split_once_chars};

verus! {

/// Controls whether the HTTP resolver may return non-public destination addresses.
#[derive(Clone, Copy, Debug, PartialEq, Eq, Structural)]
pub enum HttpNetworkAccess {
    /// Permit only publicly routable Internet addresses.
    PublicInternetOnly,
    /// Permit private, loopback, link-local, and otherwise non-public addresses, for explicitly
    /// trusted deployments and deterministic loopback tests.
    AllowPrivateNetworks,
}

/// Resource and network policy for a seekable HTTP range input.
#[derive(Clone, Copy, Debug, PartialEq, Eq)]
pub struct HttpRangeOptions {
    pub range_window_bytes: usize,
    pub max_source_bytes: u64,
    pub max_response_header_bytes: usize,
    pub socket_buffer_bytes: usize,
    pub connect_timeout: Duration,
    pub request_timeout: Duration,
    pub network_access: HttpNetworkAccess,
}

impl HttpRangeOptions {
    pub fn default_options() -> (options: Self)
        ensures
            options.range_window_bytes == 256 * 1024,
            options.max_source_bytes == 64 * 1024 * 1024 * 1024,
            options.max_response_header_bytes == 32 * 1024,
            options.socket_buffer_bytes == 64 * 1024,
            options.connect_timeout@ == 10 * 1_000_000_000,
            options.request_timeout@ == 30 * 1_000_000_000,
            options.network_access == HttpNetworkAccess::PublicInternetOnly,
    {
        HttpRangeOptions {
            range_window_bytes: 256 * 1024,
            max_source_bytes: 64 * 1024 * 1024 * 1024,
            max_response_header_bytes: 32 * 1024,
            socket_buffer_bytes: 64 * 1024,
            connect_timeout: Duration::from_secs(10),
            request_timeout: Duration::from_secs(30),
            network_access: HttpNetworkAccess::PublicInternetOnly,
        }
    }

    pub open spec fn spec_validate_error(self) -> Option<&'static str> {
        if self.range_window_bytes == 0 {
            Some("range_window_bytes must be non-zero")
        } else if self.max_source_bytes == 0 {
            Some("max_source_bytes must be non-zero")
        } else if self.max_response_header_bytes < 1024 {
            Some("max_response_header_bytes must be at least 1 KiB")
        } else if self.socket_buffer_bytes < 1024 {
            Some("socket_buffer_bytes must be at least 1 KiB")
        } else if self.connect_timeout@ == 0 {
            Some("connect_timeout must be non-zero")
        } else if self.request_timeout@ == 0 {
            Some("request_timeout must be non-zero")
        } else {
            None
        }
    }

    pub fn validate(self) -> (result: Result<Self, MediaError>)
        ensures
            match self.spec_validate_error() {
                Some(m) => result matches Err(MediaError::InvalidHttpOptions(r)) && r == m,
                None => result matches Ok(o) && o == self,
            },
    {
        if self.range_window_bytes == 0 {
            return Err(MediaError::InvalidHttpOptions("range_window_bytes must be non-zero"));
        }
        if self.max_source_bytes == 0 {
            return Err(MediaError::InvalidHttpOptions("max_source_bytes must be non-zero"));
        }
        if self.max_response_header_bytes < 1024 {
            return Err(
                MediaError::InvalidHttpOptions("max_response_header_bytes must be at least 1 KiB"),
            );
        }
        if self.socket_buffer_bytes < 1024 {
            return Err(MediaError::InvalidHttpOptions("socket_buffer_bytes must be at least 1 KiB"));
        }
        if self.connect_timeout.is_zero() {
            return Err(MediaError::InvalidHttpOptions("connect_timeout must be non-zero"));
        }
        if self.request_timeout.is_zero() {
            return Err(MediaError::InvalidHttpOptions("request_timeout must be non-zero"));
        }
        Ok(self)
    }
}

// ---------------------------------------------------------------------------------------------
// Destination policy
// ---------------------------------------------------------------------------------------------

/// A publicly routable IPv4 address: none of the special-purpose ranges.
pub open spec fn spec_public_ipv4(a: u8, b: u8, c: u8, d: u8) -> bool {
    !(a == 0 || a == 10 || a == 127 || (a == 100 && 64 <= b <= 127) || (a == 169 && b == 254) || (
    a == 172 && 16 <= b <= 31) || (a == 192 && b == 0 && c == 0) || (a == 192 && b == 0 && c
        == 2) || (a == 192 && b == 88 && c == 99) || (a == 192 && b == 168) || (a == 198 && (b
        == 18 || b == 19)) || (a == 198 && b == 51 && c == 100) || (a == 203 && b == 0 && c == 113)
        || a >= 224 || (a == 255 && b == 255 && c == 255 && d == 255))
}

pub fn is_public_ipv4(octets: [u8; 4]) -> (public: bool)
    ensures
        public == spec_public_ipv4(octets[0], octets[1], octets[2], octets[3]),
{
    let a = octets[0];
    let b = octets[1];
    let c = octets[2];
    let d = octets[3];
    !(a == 0 || a == 10 || a == 127 || (a == 100 && 64 <= b && b <= 127) || (a == 169 && b == 254)
        || (a == 172 && 16 <= b && b <= 31) || (a == 192 && b == 0 && c == 0) || (a == 192 && b
        == 0 && c == 2) || (a == 192 && b == 88 && c == 99) || (a == 192 && b == 168) || (a == 198
        && (b == 18 || b == 19)) || (a == 198 && b == 51 && c == 100) || (a == 203 && b == 0 && c
        == 113) || a >= 224 || (a == 255 && b == 255 && c == 255 && d == 255))
}

/// A globally routable IPv6 address (2000::/3) outside documentation, benchmarking and ORCHID
/// ranges.
pub open spec fn spec_public_ipv6(o: Seq<u8>) -> bool {
    &&& o[0] & 0xe0 == 0x20
    &&& !(o[0] == 0x20 && o[1] == 0x01 && o[2] == 0x0d && o[3] == 0xb8)
    &&& !(o[0] == 0x20 && o[1] == 0x01 && o[2] == 0x00 && o[3] == 0x02 && o[4] == 0x00 && o[5]
        == 0x00)
    &&& !(o[0] == 0x20 && o[1] == 0x01 && o[2] == 0x00 && (o[3] & 0xf0 == 0x10 || o[3] & 0xf0
        == 0x20))
}

pub fn is_public_ipv6(octets: [u8; 16]) -> (public: bool)
    ensures
        public == spec_public_ipv6(octets@),
{
    let o = octets;
    let globally_routable_prefix = o[0] & 0xe0 == 0x20;
    let documentation = o[0] == 0x20 && o[1] == 0x01 && o[2] == 0x0d && o[3] == 0xb8;
    let benchmarking = o[0] == 0x20 && o[1] == 0x01 && o[2] == 0x00 && o[3] == 0x02 && o[4] == 0x00
        && o[5] == 0x00;
    let orchid = o[0] == 0x20 && o[1] == 0x01 && o[2] == 0x00 && (o[3] & 0xf0 == 0x10 || o[3]
        & 0xf0 == 0x20);
    globally_routable_prefix && !documentation && !benchmarking && !orchid
}

/// Whether the network-access policy admits a resolved destination.
pub open spec fn spec_destination_allowed(access: HttpNetworkAccess, public: bool) -> bool {
    access == HttpNetworkAccess::AllowPrivateNetworks || public
}

pub fn destination_allowed(access: HttpNetworkAccess, public: bool) -> (allowed: bool)
    ensures
        allowed == spec_destination_allowed(access, public),
{
    match access {
        HttpNetworkAccess::AllowPrivateNetworks => true,
        HttpNetworkAccess::PublicInternetOnly => public,
    }
}

// ---------------------------------------------------------------------------------------------
// Range responses
// ---------------------------------------------------------------------------------------------

/// A validated `Content-Range: bytes start-end/total`.
#[derive(Clone, Copy, Debug, PartialEq, Eq)]
pub struct ParsedRange {
    pub start: u64,
    pub end: u64,
    pub total: u64,
}

/// A range response refused as inconsistent or malformed.
#[derive(Clone, Copy, Debug, PartialEq, Eq)]
pub struct InvalidResponse {
    pub reason: &'static str,
}

/// `HeaderValue::to_str` succeeds: every byte is visible ASCII or a tab.
pub open spec fn visible_ascii(b: Seq<u8>) -> bool {
    forall|i: int| 0 <= i < b.len() ==> (32 <= #[trigger] b[i] < 127 || b[i] == 9)
}

pub fn is_visible_ascii(b: &[u8]) -> (result: bool)
    ensures
        result == visible_ascii(b@),
{
    let mut i: usize = 0;
    while i < b.len()
        invariant
            i <= b@.len(),
            forall|j: int| 0 <= j < i ==> (32 <= #[trigger] b@[j] < 127 || b@[j] == 9),
        decreases b@.len() - i,
    {
        if !((32 <= b[i] && b[i] < 127) || b[i] == 9) {
            return false;
        }
        i = i + 1;
    }
    true
}

pub open spec fn bytes_text(b: Seq<u8>) -> Seq<char> {
    b.map_values(|x: u8| x as char)
}

/// A decimal header number: ASCII digits only, fitting in `u64`.
pub open spec fn spec_header_number(value: Seq<char>) -> Option<u64> {
    if value.len() == 0 || !crate::text::all_digits(value) {
        None
    } else {
        crate::text::parse_digits_u64(value)
    }
}

/// Parses the only `Content-Range` value of a range response.
pub open spec fn spec_content_range(values: Seq<Seq<u8>>) -> Result<ParsedRange, &'static str> {
    if values.len() == 0 {
        Err("missing content-range")
    } else if values.len() > 1 {
        Err("duplicate content-range")
    } else if !visible_ascii(values[0]) {
        Err("Content-Range is not valid ASCII")
    } else {
        let text = bytes_text(values[0]);
        if !crate::text::has_prefix(text, "bytes "@) {
            Err("invalid Content-Range unit")
        } else {
            let rest = text.skip(6);
            match split_once(rest, '/') {
                None => Err("invalid Content-Range syntax"),
                Some((span, total)) => match split_once(span, '-') {
                    None => Err("invalid Content-Range span"),
                    Some((start, end)) => match spec_header_number(start) {
                        None => Err("invalid Content-Range start"),
                        Some(s) => match spec_header_number(end) {
                            None => Err("invalid Content-Range end"),
                            Some(e) => match spec_header_number(total) {
                                None => Err("invalid Content-Range total"),
                                Some(t) => if s > e || e >= t {
                                    Err("Content-Range numbers are inconsistent")
                                } else {
                                    Ok(ParsedRange { start: s, end: e, total: t })
                                },
                            },
                        },
                    },
                },
            }
        }
    }
}

pub fn ascii_text(b: &[u8]) -> (text: Vec<char>)
    ensures
        text@ == bytes_text(b@),
{
    let mut out: Vec<char> = Vec::new();
    let mut i: usize = 0;
    while i < b.len()
        invariant
            i <= b@.len(),
            out@ == bytes_text(b@.take(i as int)),
        decreases b@.len() - i,
    {
        out.push(b[i] as char);
        proof {
            assert(bytes_text(b@.take(i + 1)) =~= bytes_text(b@.take(i as int)).push(b@[i as int] as char));
        }
        i = i + 1;
    }
    proof {
        assert(b@.take(b@.len() as int) =~= b@);
    }
    out
}

fn header_number(value: &[char]) -> (result: Option<u64>)
    ensures
        result == spec_header_number(value@),
{
    let mut i: usize = 0;
    while i < value.len()
        invariant
            i <= value@.len(),
            forall|j: int| 0 <= j < i ==> crate::text::is_digit(#[trigger] value@[j]),
        decreases value@.len() - i,
    {
        if !('0' <= value[i] && value[i] <= '9') {
            return None;
        }
        i = i + 1;
    }
    if value.len() == 0 {
        return None;
    }
    parse_u64_digits(value)
}

/// Validates the `Content-Range` header values of a `206 Partial Content` response.
pub fn parse_content_range(values: &Vec<Vec<u8>>) -> (result: Result<ParsedRange, InvalidResponse>)
    ensures
        match spec_content_range(values@.map_values(|v: Vec<u8>| v@)) {
            Ok(r) => result == Ok::<ParsedRange, InvalidResponse>(r),
            Err(m) => result == Err::<ParsedRange, InvalidResponse>(InvalidResponse { reason: m }),
        },
{
    let ghost views = values@.map_values(|v: Vec<u8>| v@);
    if values.len() == 0 {
        return Err(InvalidResponse { reason: "missing content-range" });
    }
    if values.len() > 1 {
        return Err(InvalidResponse { reason: "duplicate content-range" });
    }
    assert(views[0] == values@[0]@);
    if !is_visible_ascii(values[0].as_slice()) {
        return Err(InvalidResponse { reason: "Content-Range is not valid ASCII" });
    }
    let text = ascii_text(values[0].as_slice());
    let unit = chars_of("bytes ");
    proof {
        reveal_strlit("bytes ");
    }
    if !crate::text::starts_with(text.as_slice(), unit.as_slice()) {
        return Err(InvalidResponse { reason: "invalid Content-Range unit" });
    }
    let rest = crate::text::copy_range(text.as_slice(), 6, text.len());
    proof {
        assert(rest@ =~= text@.skip(6));
    }
    let (span, total) = match split_once_chars(rest.as_slice(), '/') {
        Some(p) => p,
        None => {
            return Err(InvalidResponse { reason: "invalid Content-Range syntax" });
        },
    };
    let (start, end) = match split_once_chars(span.as_slice(), '-') {
        Some(p) => p,
        None => {
            return Err(InvalidResponse { reason: "invalid Content-Range span" });
        },
    };
    let s = match header_number(start.as_slice()) {
        Some(v) => v,
        None => {
            return Err(InvalidResponse { reason: "invalid Content-Range start" });
        },
    };
    let e = match header_number(end.as_slice()) {
        Some(v) => v,
        None => {
            return Err(InvalidResponse { reason: "invalid Content-Range end" });
        },
    };
    let t = match header_number(total.as_slice()) {
        Some(v) => v,
        None => {
            return Err(InvalidResponse { reason: "invalid Content-Range total" });
        },
    };
    if s > e || e >= t {
        return Err(InvalidResponse { reason: "Content-Range numbers are inconsistent" });
    }
    Ok(ParsedRange { start: s, end: e, total: t })
}

// ---------------------------------------------------------------------------------------------
// Range requests
// ---------------------------------------------------------------------------------------------

use crate::text::append_str;
use crate::track::{decimal_string, decimal_text};

fn append_number(out: &mut Vec<char>, n: u64)
    ensures
        final(out)@ == old(out)@ + decimal_text(n as nat),
{
    let digits = decimal_string(n);
    append_str(out, digits.as_str());
}

pub open spec fn dec(n: u64) -> Seq<char> {
    decimal_text(n as nat)
}

/// The last byte a range request asks for: one window from the position, within the source
/// limit.
pub open spec fn spec_range_end(position: u64, window: usize, max_source_bytes: u64) -> u64 {
    let wanted = position + (if window == 0 {
        0
    } else {
        window - 1
    });
    let cap = if max_source_bytes == 0 {
        0
    } else {
        max_source_bytes - 1
    };
    let wanted_end = if wanted > u64::MAX {
        u64::MAX as int
    } else {
        wanted
    };
    (if wanted_end < cap {
        wanted_end
    } else {
        cap
    }) as u64
}

pub fn range_window_end(position: u64, window: usize, max_source_bytes: u64) -> (end: u64)
    ensures
        end == spec_range_end(position, window, max_source_bytes),
{
    let span: u64 = if window == 0 {
        0
    } else {
        (window - 1) as u64
    };
    let wanted = position.saturating_add(span);
    let cap = max_source_bytes.saturating_sub(1);
    if wanted < cap {
        wanted
    } else {
        cap
    }
}

/// Which check a media URL fails first: it must parse as a URI, use `http` or `https` with an
/// authority, and carry no user information.
pub open spec fn spec_media_url_problem(url: Seq<char>) -> Option<&'static str> {
    match crate::uri::parsed_uri(url) {
        None => Some("invalid HTTP media URL"),
        Some(u) => if !(u.scheme == Some("http"@) || u.scheme == Some("https"@))
            || u.authority is None {
            Some("HTTP media URL must use http or https and include an authority")
        } else if crate::playlist::contains_char(u.authority->0, '@') {
            Some("HTTP media URL must not contain user information")
        } else {
            None
        },
    }
}

/// Admits a media URL for range reading, or names the check it fails.
pub fn check_media_url(url: &str) -> (result: Result<crate::uri::UriParts, &'static str>)
    ensures
        match spec_media_url_problem(url@) {
            None => result matches Ok(u) && crate::uri::parsed_uri(url@) == Some(u@),
            Some(m) => result == Err::<crate::uri::UriParts, &'static str>(m),
        },
{
    let text = chars_of(url);
    let uri = match crate::uri::parse_uri(text.as_slice()) {
        Some(u) => u,
        None => {
            return Err("invalid HTTP media URL");
        },
    };
    let http = match &uri.scheme {
        Some(s) => crate::playlist::seq_equal(s.as_slice(), chars_of("http").as_slice())
            || crate::playlist::seq_equal(s.as_slice(), chars_of("https").as_slice()),
        None => false,
    };
    if !http {
        return Err("HTTP media URL must use http or https and include an authority");
    }
    let user = match &uri.authority {
        Some(a) => crate::route_util::contains(a.as_slice(), '@'),
        None => {
            return Err("HTTP media URL must use http or https and include an authority");
        },
    };
    if user {
        return Err("HTTP media URL must not contain user information");
    }
    Ok(uri)
}

/// The next range to request: none once a source of known length has been read to its end,
/// else from the position to the end of the window, within the source limit.
pub fn next_range(position: u64, source_len: u64, window: usize, max_source_bytes: u64) -> (range:
    Option<(u64, u64)>)
    ensures
        source_len != 0 && position >= source_len ==> range is None,
        !(source_len != 0 && position >= source_len) ==> range == Some(
            (position, spec_range_end(position, window, max_source_bytes)),
        ),
{
    if source_len != 0 && position >= source_len {
        return None;
    }
    Some((position, range_window_end(position, window, max_source_bytes)))
}

/// The `Range` header value of a request: `bytes=<first>-<last>`.
pub fn range_header_value(first: u64, last: u64) -> (value: String)
    ensures
        value@ == "bytes="@ + dec(first) + "-"@ + dec(last),
{
    let mut out: Vec<char> = Vec::new();
    append_str(&mut out, "bytes=");
    append_number(&mut out, first);
    append_str(&mut out, "-");
    append_number(&mut out, last);
    crate::text::string_from_chars(out.as_slice())
}

/// Where a seek is measured from.
#[derive(Clone, Copy, Debug, PartialEq, Eq, Structural)]
pub enum SeekOrigin {
    Start(u64),
    Current(i64),
    End(i64),
}

/// The position a seek reaches; it must lie within the source.
pub open spec fn spec_seek_target(position: u64, source_len: u64, origin: SeekOrigin) -> Option<u64> {
    let target: int = match origin {
        SeekOrigin::Start(offset) => offset as int,
        SeekOrigin::Current(offset) => position + offset,
        SeekOrigin::End(offset) => source_len + offset,
    };
    if 0 <= target <= source_len {
        Some(target as u64)
    } else {
        None
    }
}

pub fn seek_target(position: u64, source_len: u64, origin: SeekOrigin) -> (result: Result<
    u64,
    &'static str,
>)
    ensures
        match spec_seek_target(position, source_len, origin) {
            Some(t) => result == Ok::<u64, &'static str>(t),
            None => result == Err::<u64, &'static str>("HTTP seek is outside the source"),
        },
{
    let target: i128 = match origin {
        SeekOrigin::Start(offset) => offset as i128,
        SeekOrigin::Current(offset) => position as i128 + offset as i128,
        SeekOrigin::End(offset) => source_len as i128 + offset as i128,
    };
    if target < 0 || target > source_len as i128 {
        return Err("HTTP seek is outside the source");
    }
    Ok(target as u64)
}

/// Which header a source validator came from.
#[derive(Clone, Copy, Debug, PartialEq, Eq, Structural)]
pub enum ValidatorKind {
    ETag,
    LastModified,
}

/// A header value that identifies one version of a source.
#[derive(Clone, Debug, PartialEq, Eq)]
pub struct Validator {
    pub kind: ValidatorKind,
    pub value: String,
}

pub open spec fn validator_view(v: Option<Validator>) -> Option<(ValidatorKind, Seq<char>)> {
    match v {
        Some(x) => Some((x.kind, x.value@)),
        None => None,
    }
}

/// The validator of a response: a strong `ETag`, else `Last-Modified`, else none; each header
/// occurs at most once and is ASCII.
pub open spec fn spec_read_validator(etags: Seq<Seq<u8>>, last_modified: Seq<Seq<u8>>) -> Result<
    Option<(ValidatorKind, Seq<char>)>,
    Seq<char>,
> {
    if etags.len() > 1 {
        Err("duplicate etag"@)
    } else if etags.len() == 1 && !visible_ascii(etags[0]) {
        Err("ETag is not valid ASCII"@)
    } else if etags.len() == 1 && !crate::text::has_prefix(bytes_text(etags[0]), "W/"@) {
        Ok(Some((ValidatorKind::ETag, bytes_text(etags[0]))))
    } else if last_modified.len() > 1 {
        Err("duplicate last-modified"@)
    } else if last_modified.len() == 0 {
        Ok(None)
    } else if !visible_ascii(last_modified[0]) {
        Err("Last-Modified is not valid ASCII"@)
    } else {
        Ok(Some((ValidatorKind::LastModified, bytes_text(last_modified[0]))))
    }
}

pub fn read_validator(etags: &Vec<Vec<u8>>, last_modified: &Vec<Vec<u8>>) -> (result: Result<
    Option<Validator>,
    String,
>)
    ensures
        match spec_read_validator(
            etags@.map_values(|v: Vec<u8>| v@),
            last_modified@.map_values(|v: Vec<u8>| v@),
        ) {
            Ok(v) => result matches Ok(r) && validator_view(r) == v,
            Err(m) => result matches Err(e) && e@ == m,
        },
{
    proof {
        reveal_strlit("W/");
    }
    let ghost ev = etags@.map_values(|v: Vec<u8>| v@);
    let ghost lv = last_modified@.map_values(|v: Vec<u8>| v@);
    if etags.len() > 1 {
        return Err(crate::track::copy_text("duplicate etag"));
    }
    if etags.len() == 1 {
        assert(ev[0] == etags@[0]@);
        if !is_visible_ascii(etags[0].as_slice()) {
            return Err(crate::track::copy_text("ETag is not valid ASCII"));
        }
        let text = ascii_text(etags[0].as_slice());
        if !crate::text::starts_with(text.as_slice(), chars_of("W/").as_slice()) {
            return Ok(
                Some(
                    Validator {
                        kind: ValidatorKind::ETag,
                        value: crate::text::string_from_chars(text.as_slice()),
                    },
                ),
            );
        }
    }
    if last_modified.len() > 1 {
        return Err(crate::track::copy_text("duplicate last-modified"));
    }
    if last_modified.len() == 0 {
        return Ok(None);
    }
    assert(lv[0] == last_modified@[0]@);
    if !is_visible_ascii(last_modified[0].as_slice()) {
        return Err(crate::track::copy_text("Last-Modified is not valid ASCII"));
    }
    let text = ascii_text(last_modified[0].as_slice());
    Ok(
        Some(
            Validator {
                kind: ValidatorKind::LastModified,
                value: crate::text::string_from_chars(text.as_slice()),
            },
        ),
    )
}

/// The `Content-Length` of a range response: exactly one ASCII decimal number.
pub open spec fn spec_content_length(values: Seq<Seq<u8>>) -> Result<u64, Seq<char>> {
    if values.len() == 0 {
        Err("missing content-length"@)
    } else if values.len() > 1 {
        Err("duplicate content-length"@)
    } else if !visible_ascii(values[0]) {
        Err("HTTP numeric header is not valid ASCII"@)
    } else {
        match spec_header_number(bytes_text(values[0])) {
            Some(n) => Ok(n),
            None => Err("invalid HTTP numeric header"@),
        }
    }
}

pub fn parse_content_length(values: &Vec<Vec<u8>>) -> (result: Result<u64, String>)
    ensures
        match spec_content_length(values@.map_values(|v: Vec<u8>| v@)) {
            Ok(n) => result == Ok::<u64, String>(n),
            Err(m) => result matches Err(e) && e@ == m,
        },
{
    let ghost views = values@.map_values(|v: Vec<u8>| v@);
    if values.len() == 0 {
        return Err(crate::track::copy_text("missing content-length"));
    }
    if values.len() > 1 {
        return Err(crate::track::copy_text("duplicate content-length"));
    }
    assert(views[0] == values@[0]@);
    if !is_visible_ascii(values[0].as_slice()) {
        return Err(crate::track::copy_text("HTTP numeric header is not valid ASCII"));
    }
    match header_number(ascii_text(values[0].as_slice()).as_slice()) {
        Some(n) => Ok(n),
        None => Err(crate::track::copy_text("invalid HTTP numeric header")),
    }
}

/// A range response may carry at most one `Content-Encoding`, and only `identity`.
pub open spec fn spec_identity_encoding(values: Seq<Seq<u8>>) -> bool {
    values.len() == 0 || (values.len() == 1 && visible_ascii(values[0])
        && crate::route_util::ascii_lowercase(bytes_text(values[0])) == "identity"@)
}

/// The headers and body length of a range response.
#[derive(Debug)]
pub struct RangeResponse {
    pub status: u16,
    pub content_encoding: Vec<Vec<u8>>,
    pub content_range: Vec<Vec<u8>>,
    pub content_length: Vec<Vec<u8>>,
    pub body_length: Option<u64>,
    pub etag: Vec<Vec<u8>>,
    pub last_modified: Vec<Vec<u8>>,
}

pub open spec fn byte_views(v: Vec<Vec<u8>>) -> Seq<Seq<u8>> {
    v@.map_values(|x: Vec<u8>| x@)
}

/// The outcome of accepting a range: the source length, the bytes the range holds, and the
/// validator that later ranges must match.
#[derive(Debug)]
pub struct RangeAccepted {
    pub source_len: u64,
    pub remaining: u64,
    pub validator: Option<Validator>,
}

/// A range response is accepted when it is a `206` with identity encoding whose
/// `Content-Range` starts at the position, gives a total within the source limit that agrees
/// with an earlier total, and ends where the request asked (or at the end of the source); its
/// `Content-Length` and body length equal the range's length, and its validator agrees with an
/// earlier one.
pub open spec fn spec_accept_range(
    position: u64,
    source_len: u64,
    validator: Option<(ValidatorKind, Seq<char>)>,
    max_source_bytes: u64,
    requested_end: u64,
    response: RangeResponse,
) -> Result<(u64, u64, Option<(ValidatorKind, Seq<char>)>), Seq<char>> {
    if response.status != 206 {
        Err("HTTP range request returned status "@ + dec(response.status as u64)
            + ", expected 206"@)
    } else if !spec_identity_encoding(byte_views(response.content_encoding)) {
        Err("HTTP range response uses a non-identity content encoding"@)
    } else {
        match spec_content_range(byte_views(response.content_range)) {
            Err(m) => Err(m@),
            Ok(r) => if r.start != position {
                Err("Content-Range begins at "@ + dec(r.start) + ", expected "@ + dec(position))
            } else if r.total == 0 || r.total > max_source_bytes {
                Err("HTTP source length "@ + dec(r.total) + " is outside the configured limit "@
                    + dec(max_source_bytes))
            } else if source_len != 0 && r.total != source_len {
                Err("HTTP source length changed from "@ + dec(source_len) + " to "@ + dec(
                    r.total,
                ))
            } else {
                let expected_end = if requested_end < r.total - 1 {
                    requested_end
                } else {
                    (r.total - 1) as u64
                };
                if r.end != expected_end {
                    Err("Content-Range ends at "@ + dec(r.end) + ", expected "@ + dec(expected_end))
                } else {
                    let expected_len = (r.end - r.start + 1) as u64;
                    match spec_content_length(byte_views(response.content_length)) {
                        Err(m) => Err(m),
                        Ok(n) => if n != expected_len || response.body_length != Some(
                            expected_len,
                        ) {
                            Err("Content-Length does not match the "@ + dec(expected_len)
                                + "-byte range"@)
                        } else {
                            match spec_read_validator(
                                byte_views(response.etag),
                                byte_views(response.last_modified),
                            ) {
                                Err(m) => Err(m),
                                Ok(found) => if validator is Some && found is Some && validator
                                    != found {
                                    Err("HTTP source validator changed between ranges"@)
                                } else {
                                    Ok(
                                        (
                                            r.total,
                                            expected_len,
                                            if validator is None {
                                                found
                                            } else {
                                                validator
                                            },
                                        ),
                                    )
                                },
                            }
                        },
                    }
                }
            },
        }
    }
}

fn same_validator(a: &Validator, b: &Validator) -> (same: bool)
    ensures
        same == (validator_view(Some(*a)) == validator_view(Some(*b))),
{
    a.kind == b.kind && crate::playlist::seq_equal(
        chars_of(a.value.as_str()).as_slice(),
        chars_of(b.value.as_str()).as_slice(),
    )
}

fn copy_validator(v: &Option<Validator>) -> (copy: Option<Validator>)
    ensures
        validator_view(copy) == validator_view(*v),
{
    match v {
        Some(x) => Some(Validator { kind: x.kind, value: crate::track::copy_text(x.value.as_str()) }),
        None => None,
    }
}

/// Checks one range response against the reader's position, known length and validator.
pub fn accept_range_response(
    position: u64,
    source_len: u64,
    validator: &Option<Validator>,
    max_source_bytes: u64,
    requested_end: u64,
    response: &RangeResponse,
) -> (result: Result<RangeAccepted, String>)
    ensures
        match spec_accept_range(
            position,
            source_len,
            validator_view(*validator),
            max_source_bytes,
            requested_end,
            *response,
        ) {
            Ok((total, remaining, v)) => result matches Ok(a) && a.source_len == total
                && a.remaining == remaining && validator_view(a.validator) == v,
            Err(m) => result matches Err(e) && e@ == m,
        },
{
    let mut message: Vec<char> = Vec::new();
    if response.status != 206 {
        append_str(&mut message, "HTTP range request returned status ");
        append_number(&mut message, response.status as u64);
        append_str(&mut message, ", expected 206");
        return Err(crate::text::string_from_chars(message.as_slice()));
    }
    let encodings = &response.content_encoding;
    let ghost ev = byte_views(response.content_encoding);
    let identity = if encodings.len() == 0 {
        true
    } else if encodings.len() == 1 {
        assert(ev[0] == encodings@[0]@);
        is_visible_ascii(encodings[0].as_slice()) && crate::playlist::seq_equal(
            crate::route_util::to_ascii_lowercase(ascii_text(encodings[0].as_slice()).as_slice()).as_slice(),
            chars_of("identity").as_slice(),
        )
    } else {
        false
    };
    if !identity {
        return Err(crate::track::copy_text("HTTP range response uses a non-identity content encoding"));
    }
    let r = match parse_content_range(&response.content_range) {
        Ok(r) => r,
        Err(e) => {
            return Err(crate::track::copy_text(e.reason));
        },
    };
    if r.start != position {
        append_str(&mut message, "Content-Range begins at ");
        append_number(&mut message, r.start);
        append_str(&mut message, ", expected ");
        append_number(&mut message, position);
        return Err(crate::text::string_from_chars(message.as_slice()));
    }
    if r.total == 0 || r.total > max_source_bytes {
        append_str(&mut message, "HTTP source length ");
        append_number(&mut message, r.total);
        append_str(&mut message, " is outside the configured limit ");
        append_number(&mut message, max_source_bytes);
        return Err(crate::text::string_from_chars(message.as_slice()));
    }
    if source_len != 0 && r.total != source_len {
        append_str(&mut message, "HTTP source length changed from ");
        append_number(&mut message, source_len);
        append_str(&mut message, " to ");
        append_number(&mut message, r.total);
        return Err(crate::text::string_from_chars(message.as_slice()));
    }
    let expected_end = if requested_end < r.total - 1 {
        requested_end
    } else {
        r.total - 1
    };
    if r.end != expected_end {
        append_str(&mut message, "Content-Range ends at ");
        append_number(&mut message, r.end);
        append_str(&mut message, ", expected ");
        append_number(&mut message, expected_end);
        return Err(crate::text::string_from_chars(message.as_slice()));
    }
    let expected_len = r.end - r.start + 1;
    let n = parse_content_length(&response.content_length)?;
    let body_ok = match response.body_length {
        Some(b) => b == expected_len,
        None => false,
    };
    if n != expected_len || !body_ok {
        append_str(&mut message, "Content-Length does not match the ");
        append_number(&mut message, expected_len);
        append_str(&mut message, "-byte range");
        return Err(crate::text::string_from_chars(message.as_slice()));
    }
    let found = read_validator(&response.etag, &response.last_modified)?;
    match (validator, &found) {
        (Some(e), Some(a)) => if !same_validator(e, a) {
            return Err(crate::track::copy_text("HTTP source validator changed between ranges"));
        },
        _ => {},
    }
    let next = match validator {
        None => found,
        Some(_) => copy_validator(validator),
    };
    Ok(RangeAccepted { source_len: r.total, remaining: expected_len, validator: next })
}

} // verus!
