use vstd::prelude::*;

verus! {

/// The components of a parsed URI reference, as character sequences.
pub struct UriView {
    pub scheme: Option<Seq<char>>,
    pub authority: Option<Seq<char>>,
    /// The host of the authority, without user information or port.
    pub host: Option<Seq<char>>,
    pub path: Seq<char>,
    pub query: Option<Seq<char>>,
    /// The URI written back out in its normalized text form.
    pub text: Seq<char>,
}

/// The components of a parsed URI reference.
pub struct UriParts {
    pub scheme: Option<Vec<char>>,
    pub authority: Option<Vec<char>>,
    pub host: Option<Vec<char>>,
    pub path: Vec<char>,
    pub query: Option<Vec<char>>,
    pub text: Vec<char>,
}

pub open spec fn opt_chars_view(value: Option<Vec<char>>) -> Option<Seq<char>> {
    match value {
        Some(v) => Some(v@),
        None => None,
    }
}

impl View for UriParts {
    type V = UriView;

    open spec fn view(&self) -> UriView {
        UriView {
            scheme: opt_chars_view(self.scheme),
            authority: opt_chars_view(self.authority),
            host: opt_chars_view(self.host),
            path: self.path@,
            query: opt_chars_view(self.query),
            text: self.text@,
        }
    }
}

pub open spec fn opt_uri_view(value: Option<UriParts>) -> Option<UriView> {
    match value {
        Some(u) => Some(u@),
        None => None,
    }
}

/// What `ureq::http::Uri::from_str` accepts and the components it reports for a text.
pub uninterp spec fn parsed_uri(text: Seq<char>) -> Option<UriView>;

/// A host character of a plain URL: a lowercase ASCII letter, a digit, a dot or a hyphen.
pub open spec fn plain_host_char(c: char) -> bool {
    ('a' <= c && c <= 'z') || ('0' <= c && c <= '9') || c == '.' || c == '-'
}

/// A path character of a plain URL: an ASCII letter, a digit or an underscore.
pub open spec fn plain_segment_char(c: char) -> bool {
    ('a' <= c && c <= 'z') || ('A' <= c && c <= 'Z') || ('0' <= c && c <= '9') || c == '_'
}

/// The components of `https://<host>/<segment>` when the host is a non-empty run of plain host
/// characters, the segment a run of plain path characters, and the whole at most 65,534 bytes
/// long: the scheme, the host as the authority, the slash and segment as the path, no query,
/// and the text unchanged.
pub open spec fn plain_https_parts(text: Seq<char>) -> Option<UriView> {
    let rest = text.skip(8);
    if !crate::text::has_prefix(text, "https://"@) || text.len() > 65_534 {
        None
    } else {
        match crate::text::find_char(rest, '/') {
            None => None,
            Some(i) => {
                let host = rest.take(i);
                let segment = rest.skip(i + 1);
                if host.len() > 0 && (forall|j: int| 0 <= j < host.len() ==> plain_host_char(host[j]))
                    && (forall|j: int| 0 <= j < segment.len() ==> plain_segment_char(segment[j])) {
                    Some(
                        UriView {
                            scheme: Some("https"@),
                            authority: Some(host),
                            host: Some(host),
                            path: seq!['/'] + segment,
                            query: None,
                            text,
                        },
                    )
                } else {
                    None
                }
            },
        }
    }
}

/// Parses a URI reference with `ureq::http::Uri` (the `http` crate's `Uri::from_str`) and reads
/// back its scheme, authority, authority host, path, query and `Display` text.
///
/// The grammar that the `http` crate accepts takes pages to state; the contract names the outcome
/// [`parsed_uri`], a function of the text alone, and states it for plain `https://host/segment`
/// texts ([`plain_https_parts`]): there `Scheme2::parse` reads `https`, `Authority::parse` ends
/// the authority at the first `/` with every host character valid, the path scanner accepts
/// every segment character, and `Display` writes the same text back.
#[verifier::external_body]
pub fn parse_uri(text: &[char]) -> (result: Option<UriParts>)
    ensures
        opt_uri_view(result) == parsed_uri(text@),
        plain_https_parts(text@) is Some ==> opt_uri_view(result) == plain_https_parts(text@),
{
    let source: String = text.iter().collect();
    let uri: ureq::http::Uri = source.parse().ok()?;
    Some(UriParts {
        scheme: uri.scheme_str().map(|s| s.chars().collect()),
        authority: uri.authority().map(|a| a.as_str().chars().collect()),
        host: uri.authority().map(|a| a.host().chars().collect()),
        path: uri.path().chars().collect(),
        query: uri.query().map(|q| q.chars().collect()),
        text: uri.to_string().chars().collect(),
    })
}

} // verus!
