use vstd::prelude::*;

use crate::text::{
    chars_of, copy_range, find_char, find_char_index, has_byte_prefix, has_prefix, lemma_find_char,
    split_once, split_once_chars, starts_with, starts_with_bytes, string_from_chars,
};
use crate::uri::{parse_uri, UriParts, UriView};

verus! {

pub const PLAIN_PROBE_BYTES: usize = 1_000;

/// Resource limits for an in-memory playlist probe.
#[derive(Clone, Copy, Debug, PartialEq, Eq)]
pub struct PlaylistLimits {
    pub max_playlist_bytes: usize,
    pub max_line_bytes: usize,
    pub max_entries: usize,
}

impl PlaylistLimits {
    pub fn default_limits() -> (limits: Self)
        ensures
            limits.max_playlist_bytes == 1024 * 1024,
            limits.max_line_bytes == 16 * 1024,
            limits.max_entries == 1_000,
    {
        PlaylistLimits {
            max_playlist_bytes: 1024 * 1024,
            max_line_bytes: 16 * 1024,
            max_entries: 1_000,
        }
    }

    pub open spec fn spec_validate(self) -> Result<Self, PlaylistError> {
        if self.max_playlist_bytes == 0 {
            Err(PlaylistError::InvalidLimits("max_playlist_bytes must be non-zero"))
        } else if self.max_line_bytes == 0 {
            Err(PlaylistError::InvalidLimits("max_line_bytes must be non-zero"))
        } else if self.max_entries == 0 {
            Err(PlaylistError::InvalidLimits("max_entries must be non-zero"))
        } else {
            Ok(self)
        }
    }

    pub fn validate(self) -> (result: Result<Self, PlaylistError>)
        ensures
            result == self.spec_validate(),
    {
        if self.max_playlist_bytes == 0 {
            return Err(PlaylistError::InvalidLimits("max_playlist_bytes must be non-zero"));
        }
        if self.max_line_bytes == 0 {
            return Err(PlaylistError::InvalidLimits("max_line_bytes must be non-zero"));
        }
        if self.max_entries == 0 {
            return Err(PlaylistError::InvalidLimits("max_entries must be non-zero"));
        }
        Ok(self)
    }
}

/// The playlist boundary selected by [`probe_playlist`].
#[derive(Clone, Copy, Debug, PartialEq, Eq, Structural)]
pub enum PlaylistFormat {
    M3u,
    Hls,
    Pls,
    Plain,
}

/// A source reference selected from a playlist.
#[derive(Clone, Debug, PartialEq, Eq)]
pub struct PlaylistReference {
    pub identifier: String,
    pub title: Option<String>,
}

/// A detected playlist and its first compatible source reference.
#[derive(Clone, Debug, PartialEq, Eq)]
pub struct PlaylistMatch {
    pub format: PlaylistFormat,
    pub reference: PlaylistReference,
}

/// The abstract value of a [`PlaylistMatch`].
pub struct MatchView {
    pub format: PlaylistFormat,
    pub identifier: Seq<char>,
    pub title: Option<Seq<char>>,
}

pub open spec fn opt_string_seq(value: Option<String>) -> Option<Seq<char>> {
    match value {
        Some(s) => Some(s@),
        None => None,
    }
}

impl View for PlaylistMatch {
    type V = MatchView;

    open spec fn view(&self) -> MatchView {
        MatchView {
            format: self.format,
            identifier: self.reference.identifier@,
            title: opt_string_seq(self.reference.title),
        }
    }
}

pub open spec fn opt_match_view(value: Option<PlaylistMatch>) -> Option<MatchView> {
    match value {
        Some(m) => Some(m@),
        None => None,
    }
}

#[derive(Clone, Debug, PartialEq, Eq)]
pub enum PlaylistError {
    InvalidLimits(&'static str),
    TooLarge { actual: usize, limit: usize },
    LineTooLong { actual: usize, limit: usize },
    TooManyEntries { limit: usize },
    InvalidReference(&'static str),
}

// ---------------------------------------------------------------------------------------------
// Line lengths
// ---------------------------------------------------------------------------------------------

/// Index of the first `b'\n'` at or after `i`, or the length of `b`.
pub open spec fn next_byte_newline(b: Seq<u8>, i: int) -> int
    decreases b.len() - i,
{
    if i >= b.len() {
        b.len() as int
    } else if b[i] == 10 {
        i
    } else {
        next_byte_newline(b, i + 1)
    }
}

pub proof fn lemma_next_byte_newline(b: Seq<u8>, i: int)
    requires
        0 <= i,
    ensures
        i <= b.len() ==> i <= next_byte_newline(b, i) <= b.len(),
    decreases b.len() - i,
{
    if i < b.len() && b[i] != 10 {
        lemma_next_byte_newline(b, i + 1);
    }
}

/// Length of the piece `[i, e)` without one trailing `b'\r'`.
pub open spec fn piece_len(b: Seq<u8>, i: int, e: int) -> int {
    if e > i && b[e - 1] == 13 {
        e - i - 1
    } else {
        e - i
    }
}

/// Checks every newline-separated piece from `i`, a trailing carriage return not counted.
pub open spec fn check_line_lengths(b: Seq<u8>, i: int, limit: int) -> Result<(), PlaylistError>
    decreases b.len() - i,
{
    if i < 0 || i > b.len() {
        Ok(())
    } else {
        let e = next_byte_newline(b, i);
        proof {
            lemma_next_byte_newline(b, i);
        }
        if piece_len(b, i, e) > limit {
            Err(PlaylistError::LineTooLong { actual: piece_len(b, i, e) as usize, limit: limit as usize })
        } else if e >= b.len() {
            Ok(())
        } else {
            check_line_lengths(b, e + 1, limit)
        }
    }
}

pub fn validate_line_lengths(bytes: &[u8], limit: usize) -> (result: Result<(), PlaylistError>)
    ensures
        result == check_line_lengths(bytes@, 0, limit as int),
{
    let n = bytes.len();
    let mut i: usize = 0;
    loop
        invariant
            i <= n == bytes@.len(),
            check_line_lengths(bytes@, 0, limit as int) == check_line_lengths(bytes@, i as int, limit as int),
        decreases n - i,
    {
        proof {
            lemma_next_byte_newline(bytes@, i as int);
        }
        let mut e = i;
        while e < n && bytes[e] != 10
            invariant
                i <= e <= n == bytes@.len(),
                next_byte_newline(bytes@, i as int) == next_byte_newline(bytes@, e as int),
            decreases n - e,
        {
            e = e + 1;
        }
        let length = if e > i && bytes[e - 1] == 13 {
            e - i - 1
        } else {
            e - i
        };
        if length > limit {
            return Err(PlaylistError::LineTooLong { actual: length, limit });
        }
        if e >= n {
            return Ok(());
        }
        i = e + 1;
    }
}

// ---------------------------------------------------------------------------------------------
// Identifiers
// ---------------------------------------------------------------------------------------------

/// `http://`, `https://` or `icy://` at the start of the bytes.
pub open spec fn supported_identifier_bytes(b: Seq<u8>) -> bool {
    has_byte_prefix(b, "http://"@.map_values(|c: char| c as u8)) || has_byte_prefix(
        b,
        "https://"@.map_values(|c: char| c as u8),
    ) || has_byte_prefix(b, "icy://"@.map_values(|c: char| c as u8))
}

/// `http://`, `https://` or `icy://` at the start of the text.
pub open spec fn supported_identifier(s: Seq<char>) -> bool {
    has_prefix(s, "http://"@) || has_prefix(s, "https://"@) || has_prefix(s, "icy://"@)
}

pub fn ascii_bytes_of(text: &str) -> (bytes: Vec<u8>)
    requires
        forall|i: int| 0 <= i < text@.len() ==> (#[trigger] text@[i] as u32) < 128,
    ensures
        bytes@ == text@.map_values(|c: char| c as u8),
{
    let chars = chars_of(text);
    let mut out: Vec<u8> = Vec::new();
    let mut i: usize = 0;
    while i < chars.len()
        invariant
            i <= chars@.len(),
            chars@ == text@,
            forall|k: int| 0 <= k < text@.len() ==> (#[trigger] text@[k] as u32) < 128,
            out@ == chars@.take(i as int).map_values(|c: char| c as u8),
        decreases chars@.len() - i,
    {
        let c = chars[i];
        let ghost before = out@;
        proof {
            assert((c as u32) < 128);
        }
        out.push(c as u8);
        proof {
            assert(chars@.take(i + 1) =~= chars@.take(i as int).push(c));
            assert(out@ =~= chars@.take(i + 1).map_values(|c: char| c as u8));
        }
        i = i + 1;
    }
    proof {
        assert(chars@.take(chars@.len() as int) =~= chars@);
    }
    out
}

pub fn starts_with_supported_identifier(bytes: &[u8]) -> (result: bool)
    ensures
        result == supported_identifier_bytes(bytes@),
{
    proof {
        reveal_strlit("http://");
        reveal_strlit("https://");
        reveal_strlit("icy://");
    }
    let http = ascii_bytes_of("http://");
    let https = ascii_bytes_of("https://");
    let icy = ascii_bytes_of("icy://");
    starts_with_bytes(bytes, http.as_slice()) || starts_with_bytes(bytes, https.as_slice())
        || starts_with_bytes(bytes, icy.as_slice())
}

pub fn starts_with_supported_text(s: &[char]) -> (result: bool)
    ensures
        result == supported_identifier(s@),
{
    let http = chars_of("http://");
    let https = chars_of("https://");
    let icy = chars_of("icy://");
    starts_with(s, http.as_slice()) || starts_with(s, https.as_slice()) || starts_with(
        s,
        icy.as_slice(),
    )
}

/// `icy://` identifiers are fetched over plain HTTP.
pub open spec fn normalized_identifier(s: Seq<char>) -> Seq<char> {
    if has_prefix(s, "icy://"@) {
        "http://"@ + s.skip("icy://"@.len() as int)
    } else {
        s
    }
}

pub fn normalize_identifier(s: &[char]) -> (result: Vec<char>)
    ensures
        result@ == normalized_identifier(s@),
{
    let icy = chars_of("icy://");
    if starts_with(s, icy.as_slice()) {
        let mut out = chars_of("http://");
        let mut rest = copy_range(s, icy.len(), s.len());
        out.append(&mut rest);
        out
    } else {
        copy_range(s, 0, s.len())
    }
}

pub fn increment_entries(entries: &mut usize, limit: usize) -> (result: Result<(), PlaylistError>)
    requires
        *old(entries) <= limit,
    ensures
        *old(entries) == limit ==> result == Err::<(), PlaylistError>(
            PlaylistError::TooManyEntries { limit },
        ) && *final(entries) == *old(entries),
        *old(entries) != limit ==> result is Ok && *final(entries) == *old(entries) + 1,
{
    if *entries == limit {
        return Err(PlaylistError::TooManyEntries { limit });
    }
    *entries = *entries + 1;
    Ok(())
}

// ---------------------------------------------------------------------------------------------
// Dot-segment removal (RFC 3986, section 5.2.4)
// ---------------------------------------------------------------------------------------------

/// Index of the last occurrence of `c` in `s`.
pub open spec fn rfind_char(s: Seq<char>, c: char) -> Option<int>
    decreases s.len(),
{
    if s.len() == 0 {
        None
    } else if s.last() == c {
        Some(s.len() - 1)
    } else {
        rfind_char(s.drop_last(), c)
    }
}

pub proof fn lemma_rfind_char(s: Seq<char>, c: char)
    ensures
        rfind_char(s, c) matches Some(i) ==> 0 <= i < s.len() && s[i] == c,
    decreases s.len(),
{
    if s.len() > 0 && s.last() != c {
        lemma_rfind_char(s.drop_last(), c);
    }
}

pub fn rfind_char_index(s: &[char], c: char) -> (result: Option<usize>)
    ensures
        match result {
            Some(i) => rfind_char(s@, c) == Some(i as int),
            None => rfind_char(s@, c) is None,
        },
{
    let mut end = s.len();
    proof {
        assert(s@.take(end as int) =~= s@);
    }
    while end > 0 && s[end - 1] != c
        invariant
            end <= s@.len(),
            rfind_char(s@, c) == rfind_char(s@.take(end as int), c),
        decreases end,
    {
        proof {
            assert(s@.take(end as int).drop_last() =~= s@.take(end - 1));
        }
        end = end - 1;
    }
    if end == 0 {
        None
    } else {
        Some(end - 1)
    }
}

/// Drops the last `/`-separated segment of an output path, with its slash.
pub open spec fn without_last_segment(path: Seq<char>) -> Seq<char> {
    match rfind_char(path, '/') {
        Some(i) => path.take(i),
        None => Seq::empty(),
    }
}

pub fn remove_last_path_segment(path: &mut Vec<char>)
    ensures
        final(path)@ == without_last_segment(old(path)@),
{
    proof {
        lemma_rfind_char(old(path)@, '/');
    }
    match rfind_char_index(path.as_slice(), '/') {
        Some(i) => {
            path.truncate(i);
        },
        None => {
            path.clear();
        },
    }
}

/// End of the first segment of a dot-segment input: up to, not including, the next `/` after an
/// optional leading `/`.
pub open spec fn first_segment_end(input: Seq<char>) -> int {
    if input.len() > 0 && input[0] == '/' {
        match find_char(input.skip(1), '/') {
            Some(i) => i + 1,
            None => input.len() as int,
        }
    } else {
        match find_char(input, '/') {
            Some(i) => i,
            None => input.len() as int,
        }
    }
}

pub open spec fn dot_slash() -> Seq<char> {
    seq!['.', '/']
}

pub open spec fn dot_dot_slash() -> Seq<char> {
    seq!['.', '.', '/']
}

pub open spec fn slash_dot_slash() -> Seq<char> {
    seq!['/', '.', '/']
}

pub open spec fn slash_dot_dot_slash() -> Seq<char> {
    seq!['/', '.', '.', '/']
}

/// The loop of RFC 3986 `remove_dot_segments` from a given input and output buffer.
pub open spec fn remove_dots_from(input: Seq<char>, output: Seq<char>) -> Seq<char>
    decreases input.len(),
{
    if input.len() == 0 {
        output
    } else if has_prefix(input, dot_dot_slash()) {
        remove_dots_from(input.skip(3), output)
    } else if has_prefix(input, dot_slash()) || has_prefix(input, slash_dot_slash()) {
        remove_dots_from(input.skip(2), output)
    } else if input == seq!['/', '.'] {
        remove_dots_from(seq!['/'], output)
    } else if has_prefix(input, slash_dot_dot_slash()) {
        remove_dots_from(input.skip(3), without_last_segment(output))
    } else if input == seq!['/', '.', '.'] {
        remove_dots_from(seq!['/'], without_last_segment(output))
    } else if input == seq!['.'] || input == seq!['.', '.'] {
        output
    } else {
        let end = first_segment_end(input);
        if end <= 0 || end > input.len() {
            output
        } else {
            remove_dots_from(input.skip(end), output + input.take(end))
        }
    }
}

/// RFC 3986 dot-segment removal; an empty result becomes `/`.
pub open spec fn removed_dot_segments(path: Seq<char>) -> Seq<char> {
    let out = remove_dots_from(path, Seq::empty());
    if out.len() == 0 {
        seq!['/']
    } else {
        out
    }
}

fn literal_chars(text: &str) -> (result: Vec<char>)
    ensures
        result@ == text@,
{
    chars_of(text)
}

/// Removes dot segments from a path without decoding percent escapes.
pub fn remove_dot_segments(path: &[char]) -> (result: Vec<char>)
    ensures
        result@ == removed_dot_segments(path@),
{
    proof {
        reveal_strlit("../");
        reveal_strlit("./");
        reveal_strlit("/./");
        reveal_strlit("/../");
        reveal_strlit("/.");
        reveal_strlit("/..");
        reveal_strlit(".");
        reveal_strlit("..");
    }
    let dds = literal_chars("../");
    let ds = literal_chars("./");
    let sds = literal_chars("/./");
    let sdds = literal_chars("/../");
    let sd = literal_chars("/.");
    let sdd = literal_chars("/..");
    let d = literal_chars(".");
    let dd = literal_chars("..");
    proof {
        assert(dds@ =~= dot_dot_slash());
        assert(ds@ =~= dot_slash());
        assert(sds@ =~= slash_dot_slash());
        assert(sdds@ =~= slash_dot_dot_slash());
        assert(sd@ =~= seq!['/', '.']);
        assert(sdd@ =~= seq!['/', '.', '.']);
        assert(d@ =~= seq!['.']);
        assert(dd@ =~= seq!['.', '.']);
    }
    let mut input = copy_range(path, 0, path.len());
    let mut output: Vec<char> = Vec::new();
    proof {
        assert(input@ =~= path@);
    }
    while input.len() > 0
        invariant
            dds@ == dot_dot_slash(),
            ds@ == dot_slash(),
            sds@ == slash_dot_slash(),
            sdds@ == slash_dot_dot_slash(),
            sd@ == seq!['/', '.'],
            sdd@ == seq!['/', '.', '.'],
            d@ == seq!['.'],
            dd@ == seq!['.', '.'],
            remove_dots_from(path@, Seq::empty()) == remove_dots_from(input@, output@),
        decreases input@.len(),
    {
        let n = input.len();
        if starts_with(input.as_slice(), dds.as_slice()) {
            input = copy_range(input.as_slice(), 3, n);
        } else if starts_with(input.as_slice(), ds.as_slice()) || starts_with(
            input.as_slice(),
            sds.as_slice(),
        ) {
            input = copy_range(input.as_slice(), 2, n);
        } else if seq_equal(input.as_slice(), sd.as_slice()) {
            input.truncate(1);
            proof {
                assert(input@ =~= seq!['/']);
            }
        } else if starts_with(input.as_slice(), sdds.as_slice()) {
            input = copy_range(input.as_slice(), 3, n);
            remove_last_path_segment(&mut output);
        } else if seq_equal(input.as_slice(), sdd.as_slice()) {
            input.truncate(1);
            proof {
                assert(input@ =~= seq!['/']);
            }
            remove_last_path_segment(&mut output);
        } else if seq_equal(input.as_slice(), d.as_slice()) || seq_equal(
            input.as_slice(),
            dd.as_slice(),
        ) {
            input.clear();
            proof {
                assert(remove_dots_from(input@, output@) == output@);
            }
        } else {
            let end: usize;
            if input[0] == '/' {
                let rest = copy_range(input.as_slice(), 1, n);
                proof {
                    assert(rest@ =~= input@.skip(1));
                    lemma_find_char(rest@, '/');
                }
                end = match find_char_index(rest.as_slice(), '/') {
                    Some(i) => i + 1,
                    None => n,
                };
            } else {
                proof {
                    lemma_find_char(input@, '/');
                }
                end = match find_char_index(input.as_slice(), '/') {
                    Some(i) => i,
                    None => n,
                };
            }
            if end == 0 {
                input.clear();
                proof {
                    assert(remove_dots_from(input@, output@) == output@);
                }
            } else {
                let mut head = copy_range(input.as_slice(), 0, end);
                let ghost before = output@;
                let ghost taken = head@;
                output.append(&mut head);
                input = copy_range(input.as_slice(), end, n);
                proof {
                    assert(output@ =~= before + taken);
                }
            }
        }
    }
    if output.len() == 0 {
        output.push('/');
        proof {
            assert(output@ =~= seq!['/']);
        }
    }
    output
}

pub fn seq_equal(a: &[char], b: &[char]) -> (result: bool)
    ensures
        result == (a@ == b@),
{
    if a.len() != b.len() {
        return false;
    }
    let mut i: usize = 0;
    while i < a.len()
        invariant
            i <= a@.len() == b@.len(),
            forall|j: int| 0 <= j < i ==> a@[j] == b@[j],
        decreases a@.len() - i,
    {
        if a[i] != b[i] {
            return false;
        }
        i = i + 1;
    }
    assert(a@ =~= b@);
    true
}

} // verus!

verus! {

// ---------------------------------------------------------------------------------------------
// HTTP reference resolution
// ---------------------------------------------------------------------------------------------

pub open spec fn contains_char(s: Seq<char>, c: char) -> bool {
    find_char(s, c) is Some
}

/// Accepts an absolute HTTP(S) URI without user information.
pub open spec fn spec_parse_absolute_http(value: Seq<char>) -> Result<UriView, PlaylistError> {
    match crate::uri::parsed_uri(value) {
        None => Err(PlaylistError::InvalidReference("reference is not a valid URI")),
        Some(u) => if !(u.scheme == Some("http"@) || u.scheme == Some("https"@))
            || u.authority is None {
            Err(PlaylistError::InvalidReference("reference must be an absolute HTTP(S) URI"))
        } else if contains_char(u.authority->0, '@') {
            Err(PlaylistError::InvalidReference("reference must not contain user information"))
        } else {
            Ok(u)
        },
    }
}

pub fn parse_absolute_http_uri(value: &[char]) -> (result: Result<UriParts, PlaylistError>)
    ensures
        match spec_parse_absolute_http(value@) {
            Ok(u) => result matches Ok(p) && p@ == u,
            Err(e) => result == Err::<UriParts, PlaylistError>(e),
        },
{
    let uri = match parse_uri(value) {
        Some(u) => u,
        None => {
            return Err(PlaylistError::InvalidReference("reference is not a valid URI"));
        },
    };
    let http = chars_of("http");
    let https = chars_of("https");
    let is_http = match &uri.scheme {
        Some(s) => seq_equal(s.as_slice(), http.as_slice()) || seq_equal(
            s.as_slice(),
            https.as_slice(),
        ),
        None => false,
    };
    if !is_http || uri.authority.is_none() {
        return Err(PlaylistError::InvalidReference("reference must be an absolute HTTP(S) URI"));
    }
    let has_user = match &uri.authority {
        Some(a) => {
            proof {
                lemma_find_char(a@, '@');
            }
            find_char_index(a.as_slice(), '@').is_some()
        },
        None => false,
    };
    if has_user {
        return Err(PlaylistError::InvalidReference("reference must not contain user information"));
    }
    Ok(uri)
}

pub open spec fn before_fragment(reference: Seq<char>) -> Seq<char> {
    match find_char(reference, '#') {
        Some(i) => reference.take(i),
        None => reference,
    }
}

/// End of the first piece of a reference split at `/` or `?`.
pub open spec fn first_piece_end(s: Seq<char>) -> int
    decreases s.len(),
{
    if s.len() == 0 || s[0] == '/' || s[0] == '?' {
        0
    } else {
        1 + first_piece_end(s.drop_first())
    }
}

pub open spec fn spec_map_text(r: Result<UriView, PlaylistError>) -> Result<Seq<char>, PlaylistError> {
    match r {
        Ok(u) => Ok(u.text),
        Err(e) => Err(e),
    }
}

/// Resolves a reference against a parsed absolute base, as RFC 3986 section 5.2 does for the
/// supported forms, without decoding percent escapes.
pub open spec fn spec_resolve_uri(base: UriView, reference0: Seq<char>) -> Result<
    Seq<char>,
    PlaylistError,
> {
    let reference = before_fragment(reference0);
    if has_prefix(reference, "http://"@) || has_prefix(reference, "https://"@) {
        spec_map_text(spec_parse_absolute_http(reference))
    } else if base.scheme is None {
        Err(PlaylistError::InvalidReference("base URI has no scheme"))
    } else if base.authority is None {
        Err(PlaylistError::InvalidReference("base URI has no authority"))
    } else if has_prefix(reference, "//"@) {
        spec_map_text(spec_parse_absolute_http(base.scheme->0 + ":"@ + reference))
    } else if contains_char(reference.take(first_piece_end(reference)), ':') {
        Err(PlaylistError::InvalidReference("reference uses an unsupported scheme"))
    } else {
        let reference_path = match split_once(reference, '?') {
            Some((p, _)) => p,
            None => reference,
        };
        let reference_query = match split_once(reference, '?') {
            Some((_, q)) => Some(q),
            None => None,
        };
        let path = if reference_path.len() == 0 {
            base.path
        } else if has_prefix(reference_path, "/"@) {
            removed_dot_segments(reference_path)
        } else {
            let prefix_end = match rfind_char(base.path, '/') {
                Some(i) => i + 1,
                None => 0,
            };
            removed_dot_segments(
                (if prefix_end == 0 {
                    "/"@
                } else {
                    base.path.take(prefix_end)
                }) + reference_path,
            )
        };
        let query = if reference_path.len() == 0 && reference_query is None {
            base.query
        } else {
            reference_query
        };
        let resolved = base.scheme->0 + "://"@ + base.authority->0 + path + match query {
            Some(q) => "?"@ + q,
            None => Seq::empty(),
        };
        spec_map_text(spec_parse_absolute_http(resolved))
    }
}

proof fn lemma_first_piece_before_query(s: Seq<char>, i: int)
    requires
        0 <= i < s.len(),
        s[i] == '?',
    ensures
        0 <= first_piece_end(s) <= i,
    decreases i,
{
    if s[0] != '/' && s[0] != '?' {
        lemma_first_piece_before_query(s.drop_first(), i - 1);
    }
}

/// A relative reference with a non-empty path and a query keeps its query: the resolved URI is
/// the base's scheme and authority, a path, then `?` and exactly the reference's query
/// (RFC 3986 section 5.2.2: the target takes the reference's query whenever its path is
/// non-empty).
pub proof fn law_relative_reference_keeps_its_query(base: Seq<char>, path: Seq<char>, query: Seq<char>)
    requires
        spec_parse_absolute_http(base) is Ok,
        path.len() > 0,
        forall|i: int|
            0 <= i < path.len() ==> #[trigger] path[i] != '?' && path[i] != '#' && path[i] != ':',
        forall|i: int| 0 <= i < query.len() ==> #[trigger] query[i] != '#',
        !has_prefix(path, "//"@),
    ensures
        ({
            let b = spec_parse_absolute_http(base)->Ok_0;
            exists|p: Seq<char>|
                spec_resolve_http_reference(base, path + "?"@ + query) == spec_map_text(
                    spec_parse_absolute_http(
                        #[trigger] (b.scheme->0 + "://"@ + b.authority->0 + p + "?"@ + query),
                    ),
                )
        }),
{
    reveal_strlit("?");
    reveal_strlit("http://");
    reveal_strlit("https://");
    reveal_strlit("//");
    reveal_strlit("/");
    reveal_strlit("://");
    let b = spec_parse_absolute_http(base)->Ok_0;
    let r = path + "?"@ + query;
    let n = path.len() as int;
    assert(r[n] == '?');
    assert forall|i: int| 0 <= i < r.len() implies #[trigger] r[i] != '#' by {
        if i > n {
            assert(r[i] == query[i - n - 1]);
        }
    }
    crate::text::lemma_find_char(r, '#');
    if find_char(r, '#') is Some {
        let i = find_char(r, '#')->0;
        assert(r[i] == '#');
    }
    assert(before_fragment(r) == r);
    assert(!has_prefix(r, "http://"@)) by {
        if has_prefix(r, "http://"@) {
            if n > 4 {
                assert(r[4] == path[4]);
                assert(r.take(7)[4] == ':');
            } else {
                assert(r.take(7)[n] == r[n]);
            }
        }
    }
    assert(!has_prefix(r, "https://"@)) by {
        if has_prefix(r, "https://"@) {
            if n > 5 {
                assert(r[5] == path[5]);
                assert(r.take(8)[5] == ':');
            } else {
                assert(r.take(8)[n] == r[n]);
            }
        }
    }
    assert(!has_prefix(r, "//"@)) by {
        if has_prefix(r, "//"@) {
            if n >= 2 {
                assert(path.take(2) =~= r.take(2));
            } else {
                assert(r.take(2)[1] == r[1]);
            }
        }
    }
    lemma_first_piece_before_query(r, n);
    let piece = r.take(first_piece_end(r));
    assert forall|i: int| 0 <= i < piece.len() implies piece[i] != ':' by {
        assert(piece[i] == r[i]);
        assert(r[i] == path[i]);
    }
    crate::text::lemma_find_char(piece, ':');
    if find_char(piece, ':') is Some {
        let i = find_char(piece, ':')->0;
        assert(piece[i] == ':');
    }
    assert forall|i: int| 0 <= i < n implies r[i] != '?' by {
        assert(r[i] == path[i]);
    }
    crate::text::lemma_find_char(r, '?');
    assert(find_char(r, '?') == Some(n));
    assert(r.take(n) =~= path);
    assert(r.skip(n + 1) =~= query);
    let p = if has_prefix(path, "/"@) {
        removed_dot_segments(path)
    } else {
        let prefix_end = match rfind_char(b.path, '/') {
            Some(i) => i + 1,
            None => 0,
        };
        removed_dot_segments(
            (if prefix_end == 0 {
                "/"@
            } else {
                b.path.take(prefix_end)
            }) + path,
        )
    };
    assert(split_once(r, '?') == Some((path, query)));
    assert(b.scheme is Some && b.authority is Some);
    assert(b.scheme->0 + "://"@ + b.authority->0 + p + ("?"@ + query) =~= b.scheme->0 + "://"@
        + b.authority->0 + p + "?"@ + query);
    assert(spec_resolve_uri(b, r) == spec_map_text(
        spec_parse_absolute_http(b.scheme->0 + "://"@ + b.authority->0 + p + "?"@ + query),
    ));
}

/// A reference with an empty path keeps the base's path: with no query it keeps the base's
/// query too, and with a query `?q` it takes `q` (RFC 3986 section 5.2.2).
pub proof fn law_empty_reference_keeps_base_path(base: Seq<char>, query: Option<Seq<char>>)
    requires
        spec_parse_absolute_http(base) is Ok,
        query matches Some(q) ==> forall|i: int| 0 <= i < q.len() ==> #[trigger] q[i] != '#',
    ensures
        ({
            let b = spec_parse_absolute_http(base)->Ok_0;
            let reference = match query {
                Some(q) => "?"@ + q,
                None => Seq::empty(),
            };
            let kept = match query {
                Some(q) => Some(q),
                None => b.query,
            };
            spec_resolve_http_reference(base, reference) == spec_map_text(
                spec_parse_absolute_http(
                    b.scheme->0 + "://"@ + b.authority->0 + b.path + match kept {
                        Some(q) => "?"@ + q,
                        None => Seq::empty(),
                    },
                ),
            )
        }),
{
    reveal_strlit("?");
    reveal_strlit("http://");
    reveal_strlit("https://");
    reveal_strlit("//");
    let b = spec_parse_absolute_http(base)->Ok_0;
    let r: Seq<char> = match query {
        Some(q) => "?"@ + q,
        None => Seq::empty(),
    };
    assert forall|i: int| 0 <= i < r.len() implies #[trigger] r[i] != '#' by {
        if i > 0 {
            assert(r[i] == query->0[i - 1]);
        }
    }
    crate::text::lemma_find_char(r, '#');
    if find_char(r, '#') is Some {
        let i = find_char(r, '#')->0;
        assert(r[i] == '#');
    }
    assert(before_fragment(r) == r);
    assert(first_piece_end(r) == 0);
    assert(r.take(0) =~= Seq::<char>::empty());
    crate::text::lemma_find_char(Seq::<char>::empty(), ':');
    crate::text::lemma_find_char(r, '?');
    if r.len() > 0 {
        assert(r[0] == '?');
        assert(!has_prefix(r, "http://"@)) by {
            if has_prefix(r, "http://"@) {
                assert(r.take(7)[0] == r[0]);
            }
        }
        assert(!has_prefix(r, "https://"@)) by {
            if has_prefix(r, "https://"@) {
                assert(r.take(8)[0] == r[0]);
            }
        }
        assert(!has_prefix(r, "//"@)) by {
            if has_prefix(r, "//"@) {
                assert(r.take(2)[0] == r[0]);
            }
        }
        assert(find_char(r, '?') == Some(0int));
        assert(r.take(0) =~= Seq::<char>::empty());
        assert(r.skip(1) =~= query->0);
    }
    assert(b.scheme is Some && b.authority is Some);
}

/// What [`resolve_http_reference`] returns.
pub open spec fn spec_resolve_http_reference(base: Seq<char>, reference: Seq<char>) -> Result<
    Seq<char>,
    PlaylistError,
> {
    match spec_parse_absolute_http(base) {
        Err(e) => Err(e),
        Ok(b) => spec_resolve_uri(b, reference),
    }
}

fn concat(a: &[char], b: &[char]) -> (result: Vec<char>)
    ensures
        result@ == a@ + b@,
{
    let mut out = copy_range(a, 0, a.len());
    let mut tail = copy_range(b, 0, b.len());
    out.append(&mut tail);
    proof {
        assert(a@.subrange(0, a@.len() as int) =~= a@);
        assert(b@.subrange(0, b@.len() as int) =~= b@);
    }
    out
}

fn text_of_absolute(value: &[char]) -> (result: Result<Vec<char>, PlaylistError>)
    ensures
        match spec_map_text(spec_parse_absolute_http(value@)) {
            Ok(t) => result matches Ok(v) && v@ == t,
            Err(e) => result == Err::<Vec<char>, PlaylistError>(e),
        },
{
    match parse_absolute_http_uri(value) {
        Ok(u) => Ok(u.text),
        Err(e) => Err(e),
    }
}

fn first_piece_len(s: &[char]) -> (result: usize)
    ensures
        result == first_piece_end(s@),
        result <= s@.len(),
{
    let mut i: usize = 0;
    proof {
        assert(s@.skip(0) =~= s@);
    }
    while i < s.len() && s[i] != '/' && s[i] != '?'
        invariant
            i <= s@.len(),
            first_piece_end(s@) == i + first_piece_end(s@.skip(i as int)),
        decreases s@.len() - i,
    {
        proof {
            assert(s@.skip(i as int).drop_first() =~= s@.skip(i + 1));
        }
        i = i + 1;
    }
    proof {
        if i < s@.len() {
            assert(s@.skip(i as int)[0] == s@[i as int]);
        }
    }
    i
}

#[verifier::rlimit(40)]
fn resolve_http_uri(base: &UriParts, reference0: &[char]) -> (result: Result<Vec<char>, PlaylistError>)
    ensures
        match spec_resolve_uri(base@, reference0@) {
            Ok(t) => result matches Ok(v) && v@ == t,
            Err(e) => result == Err::<Vec<char>, PlaylistError>(e),
        },
{
    proof {
        lemma_find_char(reference0@, '#');
    }
    let reference = match find_char_index(reference0, '#') {
        Some(i) => copy_range(reference0, 0, i),
        None => copy_range(reference0, 0, reference0.len()),
    };
    proof {
        assert(reference@ =~= before_fragment(reference0@));
    }
    let http = chars_of("http://");
    let https = chars_of("https://");
    if starts_with(reference.as_slice(), http.as_slice()) || starts_with(
        reference.as_slice(),
        https.as_slice(),
    ) {
        return text_of_absolute(reference.as_slice());
    }
    let scheme = match &base.scheme {
        Some(s) => s,
        None => {
            return Err(PlaylistError::InvalidReference("base URI has no scheme"));
        },
    };
    let authority = match &base.authority {
        Some(a) => a,
        None => {
            return Err(PlaylistError::InvalidReference("base URI has no authority"));
        },
    };
    let slashes = chars_of("//");
    if starts_with(reference.as_slice(), slashes.as_slice()) {
        let colon = chars_of(":");
        let head = concat(scheme.as_slice(), colon.as_slice());
        let joined = concat(head.as_slice(), reference.as_slice());
        return text_of_absolute(joined.as_slice());
    }
    let piece_end = first_piece_len(reference.as_slice());
    let piece = copy_range(reference.as_slice(), 0, piece_end);
    proof {
        lemma_find_char(piece@, ':');
        assert(piece@ =~= reference@.take(first_piece_end(reference@)));
    }
    if find_char_index(piece.as_slice(), ':').is_some() {
        return Err(PlaylistError::InvalidReference("reference uses an unsupported scheme"));
    }
    let split = split_once_chars(reference.as_slice(), '?');
    let (reference_path, reference_query) = match split {
        Some((p, q)) => (p, Some(q)),
        None => (copy_range(reference.as_slice(), 0, reference.len()), None),
    };
    proof {
        assert(reference@.subrange(0, reference@.len() as int) =~= reference@);
    }
    let slash = chars_of("/");
    let path = if reference_path.len() == 0 {
        copy_range(base.path.as_slice(), 0, base.path.len())
    } else if starts_with(reference_path.as_slice(), slash.as_slice()) {
        remove_dot_segments(reference_path.as_slice())
    } else {
        proof {
            lemma_rfind_char(base.path@, '/');
        }
        let _path_len = base.path.len();
        let prefix_end = match rfind_char_index(base.path.as_slice(), '/') {
            Some(i) => i + 1,
            None => 0,
        };
        let prefix = if prefix_end == 0 {
            copy_range(slash.as_slice(), 0, slash.len())
        } else {
            copy_range(base.path.as_slice(), 0, prefix_end)
        };
        let merged = concat(prefix.as_slice(), reference_path.as_slice());
        proof {
            assert(slash@.subrange(0, slash@.len() as int) =~= slash@);
        }
        remove_dot_segments(merged.as_slice())
    };
    proof {
        assert(base.path@.subrange(0, base.path@.len() as int) =~= base.path@);
    }
    let query: Option<Vec<char>> = if reference_path.len() == 0 && reference_query.is_none() {
        match &base.query {
            Some(q) => Some(copy_range(q.as_slice(), 0, q.len())),
            None => None,
        }
    } else {
        reference_query
    };
    proof {
        match &base.query {
            Some(q) => {
                assert(q@.subrange(0, q@.len() as int) =~= q@);
            },
            None => {},
        }
    }
    let sep = chars_of("://");
    let mut resolved = concat(scheme.as_slice(), sep.as_slice());
    resolved = concat(resolved.as_slice(), authority.as_slice());
    resolved = concat(resolved.as_slice(), path.as_slice());
    let ghost without_query = resolved@;
    match &query {
        Some(q) => {
            let mark = chars_of("?");
            let tail = concat(mark.as_slice(), q.as_slice());
            resolved = concat(resolved.as_slice(), tail.as_slice());
            proof {
                assert(resolved@ =~= without_query + ("?"@ + q@));
            }
        },
        None => {
            proof {
                assert(resolved@ =~= without_query + Seq::<char>::empty());
            }
        },
    }
    text_of_absolute(resolved.as_slice())
}

/// Resolves a playlist reference against an absolute HTTP(S) base URI.
///
/// Fragments are removed because they are not part of an HTTP request target. Dot segments are
/// removed without decoding percent escapes. Credentials and non-HTTP schemes are rejected.
pub fn resolve_http_reference(base: &str, reference: &str) -> (result: Result<String, PlaylistError>)
    ensures
        match spec_resolve_http_reference(base@, reference@) {
            Ok(t) => result matches Ok(s) && s@ == t,
            Err(e) => result == Err::<String, PlaylistError>(e),
        },
{
    let base_chars = chars_of(base);
    let reference_chars = chars_of(reference);
    let parsed = parse_absolute_http_uri(base_chars.as_slice())?;
    let resolved = resolve_http_uri(&parsed, reference_chars.as_slice())?;
    Ok(string_from_chars(resolved.as_slice()))
}

} // verus!

verus! {

// ---------------------------------------------------------------------------------------------
// M3U
// ---------------------------------------------------------------------------------------------

/// Scan state of an M3U playlist: the first plain referral, the first stream after an
/// `#EXTINF`/`#EXT-X-STREAM-INF` tag, whether such a tag is pending, and the entry count.
pub struct M3uState {
    pub referral: Option<Seq<char>>,
    pub hls: Option<Seq<char>>,
    pub pending: bool,
    pub entries: int,
}

pub open spec fn m3u_step(s: M3uState, raw: Seq<char>, limit: int) -> Result<M3uState, PlaylistError> {
    let line = crate::text::trim(raw);
    if has_prefix(line, "#EXTINF"@) || has_prefix(line, "#EXT-X-STREAM-INF"@) {
        Ok(M3uState { pending: true, ..s })
    } else if line.len() == 0 || has_prefix(line, "#"@) {
        Ok(s)
    } else if s.entries == limit {
        Err(PlaylistError::TooManyEntries { limit: limit as usize })
    } else if s.pending {
        Ok(
            M3uState {
                pending: false,
                hls: if s.hls is None {
                    Some(normalized_identifier(line))
                } else {
                    s.hls
                },
                entries: s.entries + 1,
                ..s
            },
        )
    } else if s.referral is None && supported_identifier(line) {
        Ok(M3uState { referral: Some(normalized_identifier(line)), entries: s.entries + 1, ..s })
    } else {
        Ok(M3uState { entries: s.entries + 1, ..s })
    }
}

pub open spec fn m3u_fold(s: M3uState, lines: Seq<Seq<char>>, limit: int) -> Result<
    M3uState,
    PlaylistError,
>
    decreases lines.len(),
{
    if lines.len() == 0 {
        Ok(s)
    } else {
        match m3u_step(s, lines[0], limit) {
            Err(e) => Err(e),
            Ok(s2) => m3u_fold(s2, lines.skip(1), limit),
        }
    }
}

pub open spec fn spec_parse_m3u(text: Seq<char>, limit: int) -> Result<Option<MatchView>, PlaylistError> {
    match m3u_fold(
        M3uState { referral: None, hls: None, pending: false, entries: 0 },
        crate::text::lines(text),
        limit,
    ) {
        Err(e) => Err(e),
        Ok(s) => Ok(
            if s.hls is Some {
                Some(MatchView { format: PlaylistFormat::Hls, identifier: s.hls->0, title: None })
            } else if s.referral is Some {
                Some(
                    MatchView { format: PlaylistFormat::M3u, identifier: s.referral->0, title: None },
                )
            } else {
                None
            },
        ),
    }
}

fn reference_match(format: PlaylistFormat, identifier: Vec<char>, title: Option<Vec<char>>) -> (result:
    PlaylistMatch)
    ensures
        result@ == (MatchView { format, identifier: identifier@, title: crate::uri::opt_chars_view(title) }),
{
    let title = match title {
        Some(t) => Some(string_from_chars(t.as_slice())),
        None => None,
    };
    PlaylistMatch {
        format,
        reference: PlaylistReference { identifier: string_from_chars(identifier.as_slice()), title },
    }
}

#[verifier::rlimit(40)]
fn parse_m3u(text: &[char], limits: PlaylistLimits) -> (result: Result<
    Option<PlaylistMatch>,
    PlaylistError,
>)
    ensures
        match spec_parse_m3u(text@, limits.max_entries as int) {
            Ok(m) => result matches Ok(r) && opt_match_view(r) == m,
            Err(e) => result == Err::<Option<PlaylistMatch>, PlaylistError>(e),
        },
{
    let lines = crate::text::split_lines(text);
    let ghost all = crate::text::char_seqs(lines@);
    let ghost init = M3uState { referral: None, hls: None, pending: false, entries: 0 };
    let extinf = chars_of("#EXTINF");
    let stream_inf = chars_of("#EXT-X-STREAM-INF");
    let hash = chars_of("#");
    let mut first_referral: Option<Vec<char>> = None;
    let mut first_hls: Option<Vec<char>> = None;
    let mut pending_stream = false;
    let mut entries: usize = 0;
    let mut i: usize = 0;
    proof {
        assert(all.skip(0) =~= all);
    }
    while i < lines.len()
        invariant
            i <= lines@.len(),
            all == crate::text::char_seqs(lines@),
            all == crate::text::lines(text@),
            extinf@ == "#EXTINF"@,
            stream_inf@ == "#EXT-X-STREAM-INF"@,
            hash@ == "#"@,
            init == (M3uState { referral: None, hls: None, pending: false, entries: 0 }),
            entries <= limits.max_entries,
            m3u_fold(init, all, limits.max_entries as int) == m3u_fold(
                M3uState {
                    referral: crate::uri::opt_chars_view(first_referral),
                    hls: crate::uri::opt_chars_view(first_hls),
                    pending: pending_stream,
                    entries: entries as int,
                },
                all.skip(i as int),
                limits.max_entries as int,
            ),
        decreases lines@.len() - i,
    {
        proof {
            assert(all.skip(i as int)[0] == all[i as int]);
            assert(all.skip(i as int).skip(1) =~= all.skip(i + 1));
        }
        let line = crate::text::trim_chars(lines[i].as_slice());
        if starts_with(line.as_slice(), extinf.as_slice()) || starts_with(
            line.as_slice(),
            stream_inf.as_slice(),
        ) {
            pending_stream = true;
        } else if line.len() == 0 || starts_with(line.as_slice(), hash.as_slice()) {
        } else {
            increment_entries(&mut entries, limits.max_entries)?;
            if pending_stream {
                pending_stream = false;
                if first_hls.is_none() {
                    first_hls = Some(normalize_identifier(line.as_slice()));
                }
            } else if first_referral.is_none() && starts_with_supported_text(line.as_slice()) {
                first_referral = Some(normalize_identifier(line.as_slice()));
            }
        }
        i = i + 1;
    }
    proof {
        assert(all.skip(i as int) =~= Seq::<Seq<char>>::empty());
    }
    if first_hls.is_some() {
        let id = first_hls.unwrap();
        return Ok(Some(reference_match(PlaylistFormat::Hls, id, None)));
    }
    match first_referral {
        Some(id) => Ok(Some(reference_match(PlaylistFormat::M3u, id, None))),
        None => Ok(None),
    }
}

// ---------------------------------------------------------------------------------------------
// PLS
// ---------------------------------------------------------------------------------------------

/// One numbered PLS entry: its index, `FileN` reference and `TitleN` value.
pub struct PlsView {
    pub index: usize,
    pub identifier: Option<Seq<char>>,
    pub title: Option<Seq<char>>,
}

/// `FileN` or `TitleN` with a decimal `N` that fits in `usize`.
pub open spec fn spec_pls_key(key: Seq<char>) -> Option<(usize, bool)> {
    let (digits, is_file) = if has_prefix(key, "File"@) {
        (key.skip(4), true)
    } else if has_prefix(key, "Title"@) {
        (key.skip(5), false)
    } else {
        (Seq::empty(), false)
    };
    if !(has_prefix(key, "File"@) || has_prefix(key, "Title"@)) {
        None
    } else {
        match crate::text::parse_digits_u64(digits) {
            Some(v) => if v <= usize::MAX {
                Some((v as usize, is_file))
            } else {
                None
            },
            None => None,
        }
    }
}

pub fn parse_pls_key(key: &[char]) -> (result: Option<(usize, bool)>)
    ensures
        result == spec_pls_key(key@),
{
    proof {
        reveal_strlit("File");
        reveal_strlit("Title");
    }
    let file = chars_of("File");
    let title = chars_of("Title");
    let (digits, is_file) = if starts_with(key, file.as_slice()) {
        (copy_range(key, 4, key.len()), true)
    } else if starts_with(key, title.as_slice()) {
        (copy_range(key, 5, key.len()), false)
    } else {
        return None;
    };
    proof {
        assert(digits@ =~= key@.skip(if is_file { 4int } else { 5int }));
    }
    match crate::text::parse_u64_digits(digits.as_slice()) {
        Some(v) => if v <= usize::MAX as u64 {
            Some((v as usize, is_file))
        } else {
            None
        },
        None => None,
    }
}

/// Position of the entry with the given index.
pub open spec fn pls_position(entries: Seq<PlsView>, index: usize) -> Option<int>
    decreases entries.len(),
{
    if entries.len() == 0 {
        None
    } else if entries.last().index == index {
        Some(entries.len() - 1)
    } else {
        pls_position(entries.drop_last(), index)
    }
}

pub open spec fn pls_step(entries: Seq<PlsView>, raw: Seq<char>, limit: int) -> Result<
    Seq<PlsView>,
    PlaylistError,
> {
    let line = crate::text::trim(raw);
    match split_once(line, '=') {
        None => Ok(entries),
        Some((key, value)) => match spec_pls_key(key) {
            None => Ok(entries),
            Some((index, is_file)) => match pls_position(entries, index) {
                Some(p) => Ok(entries.update(p, pls_apply(entries[p], is_file, value))),
                None => if entries.len() == limit {
                    Err(PlaylistError::TooManyEntries { limit: limit as usize })
                } else {
                    Ok(entries.push(pls_apply(PlsView { index, identifier: None, title: None }, is_file, value)))
                },
            },
        },
    }
}

pub open spec fn pls_apply(e: PlsView, is_file: bool, value: Seq<char>) -> PlsView {
    if is_file {
        if supported_identifier(value) {
            PlsView { identifier: Some(normalized_identifier(value)), ..e }
        } else {
            e
        }
    } else {
        PlsView { title: Some(value), ..e }
    }
}

pub open spec fn pls_fold(entries: Seq<PlsView>, lines: Seq<Seq<char>>, limit: int) -> Result<
    Seq<PlsView>,
    PlaylistError,
>
    decreases lines.len(),
{
    if lines.len() == 0 {
        Ok(entries)
    } else {
        match pls_step(entries, lines[0], limit) {
            Err(e) => Err(e),
            Ok(e2) => pls_fold(e2, lines.skip(1), limit),
        }
    }
}

/// Position of the entry with the least index among those with a reference.
pub open spec fn pls_best(entries: Seq<PlsView>) -> Option<int>
    decreases entries.len(),
{
    if entries.len() == 0 {
        None
    } else {
        match pls_best(entries.drop_last()) {
            Some(b) => if entries.last().identifier is Some && entries.last().index
                < entries[b].index {
                Some(entries.len() - 1)
            } else {
                Some(b)
            },
            None => if entries.last().identifier is Some {
                Some(entries.len() - 1)
            } else {
                None
            },
        }
    }
}

/// The chosen PLS entry is, among the entries with a supported reference, one with the least
/// index; nothing is chosen exactly when no entry has a reference.
pub proof fn law_pls_chooses_least_numbered_reference(entries: Seq<PlsView>)
    ensures
        pls_best(entries) matches Some(b) ==> 0 <= b < entries.len() && entries[b].identifier is Some
            && forall|j: int|
            0 <= j < entries.len() && (#[trigger] entries[j]).identifier is Some
                ==> entries[b].index <= entries[j].index,
        pls_best(entries) is None <==> forall|j: int|
            0 <= j < entries.len() ==> (#[trigger] entries[j]).identifier is None,
    decreases entries.len(),
{
    if entries.len() > 0 {
        let init = entries.drop_last();
        law_pls_chooses_least_numbered_reference(init);
        assert forall|j: int| 0 <= j < init.len() implies #[trigger] init[j] == entries[j] by {}
        let n = entries.len() - 1;
        match pls_best(init) {
            Some(b) => {
                assert(init[b] == entries[b]);
                assert forall|j: int|
                    0 <= j < entries.len() && (#[trigger] entries[j]).identifier is Some implies entries[
                    pls_best(entries)->0].index <= entries[j].index by {
                    if j < n {
                        assert(init[j] == entries[j]);
                    }
                }
            },
            None => {
                assert forall|j: int|
                    0 <= j < entries.len() && (#[trigger] entries[j]).identifier is Some implies entries[
                    pls_best(entries)->0].index <= entries[j].index by {
                    if j < n {
                        assert(init[j] == entries[j]);
                    }
                }
                if pls_best(entries) is None {
                    assert forall|j: int| 0 <= j < entries.len() implies (
                    #[trigger] entries[j]).identifier is None by {
                        if j < n {
                            assert(init[j] == entries[j]);
                        }
                    }
                }
            },
        }
        if forall|j: int| 0 <= j < entries.len() ==> (#[trigger] entries[j]).identifier is None {
            assert(entries[n].identifier is None);
            assert forall|j: int| 0 <= j < init.len() implies (#[trigger] init[j]).identifier is None by {
                assert(init[j] == entries[j]);
            }
        }
    }
}

/// A PLS probe answers with the reference of the lowest-numbered `FileN` entry that has a
/// supported reference, with that entry's title, and with no match when no entry has one.
pub proof fn law_pls_probe_takes_least_numbered_file(text: Seq<char>, limit: int)
    ensures
        pls_fold(Seq::empty(), lines_after_first(text), limit) matches Ok(entries) ==> ({
            &&& spec_parse_pls(text, limit) matches Ok(Some(m)) ==> exists|b: int|
                0 <= b < entries.len() && (#[trigger] entries[b]).identifier == Some(m.identifier)
                    && m.title == entries[b].title && m.format == PlaylistFormat::Pls && forall|j: int|
                    0 <= j < entries.len() && (#[trigger] entries[j]).identifier is Some
                        ==> entries[b].index <= entries[j].index
            &&& spec_parse_pls(text, limit) == Ok::<Option<MatchView>, PlaylistError>(None)
                <==> forall|j: int|
                0 <= j < entries.len() ==> (#[trigger] entries[j]).identifier is None
        }),
{
    match pls_fold(Seq::empty(), lines_after_first(text), limit) {
        Ok(entries) => {
            law_pls_chooses_least_numbered_reference(entries);
            match pls_best(entries) {
                Some(b) => {
                    assert(entries[b].identifier == Some(entries[b].identifier->0));
                },
                None => {},
            }
        },
        Err(_) => {},
    }
}

/// The lines after the first one, as `lines().skip(1)` yields them.
pub open spec fn lines_after_first(text: Seq<char>) -> Seq<Seq<char>> {
    let all = crate::text::lines(text);
    if all.len() == 0 {
        all
    } else {
        all.skip(1)
    }
}

pub open spec fn spec_parse_pls(text: Seq<char>, limit: int) -> Result<Option<MatchView>, PlaylistError> {
    match pls_fold(Seq::empty(), lines_after_first(text), limit) {
        Err(e) => Err(e),
        Ok(entries) => Ok(
            match pls_best(entries) {
                Some(b) => Some(
                    MatchView {
                        format: PlaylistFormat::Pls,
                        identifier: entries[b].identifier->0,
                        title: entries[b].title,
                    },
                ),
                None => None,
            },
        ),
    }
}

struct PlsEntry {
    index: usize,
    identifier: Option<Vec<char>>,
    title: Option<Vec<char>>,
}

impl View for PlsEntry {
    type V = PlsView;

    closed spec fn view(&self) -> PlsView {
        PlsView {
            index: self.index,
            identifier: crate::uri::opt_chars_view(self.identifier),
            title: crate::uri::opt_chars_view(self.title),
        }
    }
}

spec fn pls_views(entries: Seq<PlsEntry>) -> Seq<PlsView> {
    entries.map_values(|e: PlsEntry| e@)
}

proof fn lemma_pls_position(entries: Seq<PlsView>, index: usize)
    ensures
        pls_position(entries, index) matches Some(p) ==> 0 <= p < entries.len() && entries[p].index
            == index,
    decreases entries.len(),
{
    if entries.len() > 0 && entries.last().index != index {
        lemma_pls_position(entries.drop_last(), index);
    }
}

proof fn lemma_pls_best(entries: Seq<PlsView>)
    ensures
        pls_best(entries) matches Some(b) ==> 0 <= b < entries.len() && entries[b].identifier is Some,
    decreases entries.len(),
{
    if entries.len() > 0 {
        lemma_pls_best(entries.drop_last());
    }
}

fn pls_find(entries: &Vec<PlsEntry>, index: usize) -> (result: Option<usize>)
    ensures
        match result {
            Some(p) => pls_position(pls_views(entries@), index) == Some(p as int),
            None => pls_position(pls_views(entries@), index) is None,
        },
{
    let mut end = entries.len();
    proof {
        assert(pls_views(entries@).take(end as int) =~= pls_views(entries@));
    }
    while end > 0 && entries[end - 1].index != index
        invariant
            end <= entries@.len(),
            pls_position(pls_views(entries@), index) == pls_position(
                pls_views(entries@).take(end as int),
                index,
            ),
        decreases end,
    {
        proof {
            assert(pls_views(entries@).take(end as int).drop_last() =~= pls_views(entries@).take(
                end - 1,
            ));
        }
        end = end - 1;
    }
    if end == 0 {
        None
    } else {
        Some(end - 1)
    }
}

fn pls_choose(entries: &Vec<PlsEntry>) -> (result: Option<usize>)
    ensures
        match result {
            Some(b) => pls_best(pls_views(entries@)) == Some(b as int),
            None => pls_best(pls_views(entries@)) is None,
        },
{
    let mut best: Option<usize> = None;
    let mut i: usize = 0;
    while i < entries.len()
        invariant
            i <= entries@.len(),
            match best {
                Some(b) => pls_best(pls_views(entries@).take(i as int)) == Some(b as int) && b < i,
                None => pls_best(pls_views(entries@).take(i as int)) is None,
            },
        decreases entries@.len() - i,
    {
        proof {
            assert(pls_views(entries@).take(i + 1).drop_last() =~= pls_views(entries@).take(
                i as int,
            ));
        }
        if entries[i].identifier.is_some() {
            match best {
                Some(b) => {
                    if entries[i].index < entries[b].index {
                        best = Some(i);
                    }
                },
                None => {
                    best = Some(i);
                },
            }
        }
        i = i + 1;
    }
    proof {
        assert(pls_views(entries@).take(i as int) =~= pls_views(entries@));
    }
    best
}

#[verifier::rlimit(60)]
fn pls_line(entries: &mut Vec<PlsEntry>, raw: &[char], limit: usize) -> (result: Result<
    (),
    PlaylistError,
>)
    requires
        old(entries)@.len() <= limit,
    ensures
        match pls_step(pls_views(old(entries)@), raw@, limit as int) {
            Ok(e) => result is Ok && pls_views(final(entries)@) == e && final(entries)@.len()
                <= limit,
            Err(e) => result == Err::<(), PlaylistError>(e),
        },
{
    let line = crate::text::trim_chars(raw);
    let (key, value) = match split_once_chars(line.as_slice(), '=') {
        Some(kv) => kv,
        None => {
            return Ok(());
        },
    };
    let (index, is_file) = match parse_pls_key(key.as_slice()) {
        Some(k) => k,
        None => {
            return Ok(());
        },
    };
    let supported = starts_with_supported_text(value.as_slice());
    let normalized = normalize_identifier(value.as_slice());
    let ghost before = pls_views(entries@);
    match pls_find(entries, index) {
        Some(p) => {
            proof {
                lemma_pls_position(before, index);
            }
            let mut entry = entries.remove(p);
            if is_file {
                if supported {
                    entry.identifier = Some(normalized);
                }
            } else {
                entry.title = Some(value);
            }
            entries.insert(p, entry);
            proof {
                assert(pls_views(entries@) =~= before.update(p as int, entry@));
            }
            Ok(())
        },
        None => {
            if entries.len() == limit {
                return Err(PlaylistError::TooManyEntries { limit });
            }
            let mut entry = PlsEntry { index, identifier: None, title: None };
            if is_file {
                if supported {
                    entry.identifier = Some(normalized);
                }
            } else {
                entry.title = Some(value);
            }
            entries.push(entry);
            proof {
                assert(pls_views(entries@) =~= before.push(entry@));
            }
            Ok(())
        },
    }
}

fn parse_pls(text: &[char], limits: PlaylistLimits) -> (result: Result<
    Option<PlaylistMatch>,
    PlaylistError,
>)
    ensures
        match spec_parse_pls(text@, limits.max_entries as int) {
            Ok(m) => result matches Ok(r) && opt_match_view(r) == m,
            Err(e) => result == Err::<Option<PlaylistMatch>, PlaylistError>(e),
        },
{
    let lines = crate::text::split_lines(text);
    if lines.len() == 0 {
        return Ok(None);
    }
    let ghost all = crate::text::char_seqs(lines@).skip(1);
    let mut entries: Vec<PlsEntry> = Vec::new();
    let mut i: usize = 1;
    proof {
        assert(pls_views(entries@) =~= Seq::<PlsView>::empty());
        assert(all == lines_after_first(text@));
    }
    proof {
        assert(all.skip(0) =~= all);
    }
    while i < lines.len()
        invariant
            1 <= i <= lines@.len(),
            all == crate::text::char_seqs(lines@).skip(1),
            all == lines_after_first(text@),
            entries@.len() <= limits.max_entries,
            pls_fold(Seq::empty(), all, limits.max_entries as int) == pls_fold(
                pls_views(entries@),
                all.skip(i - 1),
                limits.max_entries as int,
            ),
        decreases lines@.len() - i,
    {
        proof {
            assert(all.skip(i - 1)[0] == crate::text::char_seqs(lines@)[i as int]);
            assert(all.skip(i - 1).skip(1) =~= all.skip(i as int));
        }
        pls_line(&mut entries, lines[i].as_slice(), limits.max_entries)?;
        i = i + 1;
    }
    proof {
        assert(all.skip(i - 1) =~= Seq::<Seq<char>>::empty());
        lemma_pls_best(pls_views(entries@));
    }
    match pls_choose(&entries) {
        Some(b) => {
            let entry = entries.remove(b);
            let identifier = match entry.identifier {
                Some(id) => id,
                None => {
                    return Ok(None);
                },
            };
            Ok(Some(reference_match(PlaylistFormat::Pls, identifier, entry.title)))
        },
        None => Ok(None),
    }
}

// ---------------------------------------------------------------------------------------------
// Plain lists
// ---------------------------------------------------------------------------------------------

/// Removes every trailing carriage return.
pub open spec fn trim_trailing_cr(s: Seq<char>) -> Seq<char>
    decreases s.len(),
{
    if s.len() > 0 && s.last() == '\r' {
        trim_trailing_cr(s.drop_last())
    } else {
        s
    }
}

/// Scan state of a plain list: the first reference and the entry count.
pub open spec fn plain_fold(first: Option<Seq<char>>, entries: int, lines: Seq<Seq<char>>, limit: int) -> Result<
    Option<Seq<char>>,
    PlaylistError,
>
    decreases lines.len(),
{
    if lines.len() == 0 {
        Ok(first)
    } else {
        let line = trim_trailing_cr(lines[0]);
        if supported_identifier(line) {
            if entries == limit {
                Err(PlaylistError::TooManyEntries { limit: limit as usize })
            } else {
                plain_fold(
                    if first is None {
                        Some(normalized_identifier(line))
                    } else {
                        first
                    },
                    entries + 1,
                    lines.skip(1),
                    limit,
                )
            }
        } else {
            plain_fold(first, entries, lines.skip(1), limit)
        }
    }
}

pub open spec fn spec_parse_plain(text: Seq<char>, limit: int) -> Result<Option<MatchView>, PlaylistError> {
    match plain_fold(None, 0, crate::text::lines(text), limit) {
        Err(e) => Err(e),
        Ok(first) => Ok(
            match first {
                Some(id) => Some(MatchView { format: PlaylistFormat::Plain, identifier: id, title: None }),
                None => None,
            },
        ),
    }
}

fn trim_cr(s: &[char]) -> (result: Vec<char>)
    ensures
        result@ == trim_trailing_cr(s@),
{
    let mut end = s.len();
    proof {
        assert(s@.take(end as int) =~= s@);
    }
    while end > 0 && s[end - 1] == '\r'
        invariant
            end <= s@.len(),
            trim_trailing_cr(s@) == trim_trailing_cr(s@.take(end as int)),
        decreases end,
    {
        proof {
            assert(s@.take(end as int).drop_last() =~= s@.take(end - 1));
        }
        end = end - 1;
    }
    copy_range(s, 0, end)
}

fn parse_plain(text: &[char], limits: PlaylistLimits) -> (result: Result<
    Option<PlaylistMatch>,
    PlaylistError,
>)
    ensures
        match spec_parse_plain(text@, limits.max_entries as int) {
            Ok(m) => result matches Ok(r) && opt_match_view(r) == m,
            Err(e) => result == Err::<Option<PlaylistMatch>, PlaylistError>(e),
        },
{
    let lines = crate::text::split_lines(text);
    let ghost all = crate::text::char_seqs(lines@);
    let mut first: Option<Vec<char>> = None;
    let mut entries: usize = 0;
    let mut i: usize = 0;
    proof {
        assert(all.skip(0) =~= all);
    }
    while i < lines.len()
        invariant
            i <= lines@.len(),
            all == crate::text::char_seqs(lines@),
            all == crate::text::lines(text@),
            entries <= limits.max_entries,
            plain_fold(None, 0, all, limits.max_entries as int) == plain_fold(
                crate::uri::opt_chars_view(first),
                entries as int,
                all.skip(i as int),
                limits.max_entries as int,
            ),
        decreases lines@.len() - i,
    {
        proof {
            assert(all.skip(i as int)[0] == all[i as int]);
            assert(all.skip(i as int).skip(1) =~= all.skip(i + 1));
        }
        let line = trim_cr(lines[i].as_slice());
        if starts_with_supported_text(line.as_slice()) {
            increment_entries(&mut entries, limits.max_entries)?;
            if first.is_none() {
                first = Some(normalize_identifier(line.as_slice()));
            }
        }
        i = i + 1;
    }
    proof {
        assert(all.skip(i as int) =~= Seq::<Seq<char>>::empty());
    }
    match first {
        Some(id) => Ok(Some(reference_match(PlaylistFormat::Plain, id, None))),
        None => Ok(None),
    }
}

} // verus!

verus! {

// ---------------------------------------------------------------------------------------------
// Probing
// ---------------------------------------------------------------------------------------------

pub open spec fn ascii_prefix(b: Seq<u8>, text: Seq<char>) -> bool {
    has_byte_prefix(b, text.map_values(|c: char| c as u8))
}

/// The playlist form that the leading bytes announce.
pub open spec fn detect_format(bytes: Seq<u8>, include_plain: bool) -> Option<PlaylistFormat> {
    if ascii_prefix(bytes, "#EXTM3U"@) || ascii_prefix(bytes, "#EXTINF"@) {
        Some(PlaylistFormat::M3u)
    } else if ascii_prefix(bytes, "[playlist]"@) || ascii_prefix(bytes, "[Playlist]"@) {
        Some(PlaylistFormat::Pls)
    } else if include_plain && supported_identifier_bytes(
        bytes.take(if bytes.len() < PLAIN_PROBE_BYTES { bytes.len() as int } else { PLAIN_PROBE_BYTES as int }),
    ) {
        Some(PlaylistFormat::Plain)
    } else {
        None
    }
}

/// What [`probe_playlist`] returns.
pub open spec fn spec_probe_playlist(bytes: Seq<u8>, include_plain: bool, limits: PlaylistLimits) -> Result<
    Option<MatchView>,
    PlaylistError,
> {
    match limits.spec_validate() {
        Err(e) => Err(e),
        Ok(_) => if bytes.len() > limits.max_playlist_bytes {
            Err(PlaylistError::TooLarge { actual: bytes.len() as usize, limit: limits.max_playlist_bytes })
        } else {
            match detect_format(bytes, include_plain) {
                None => Ok(None),
                Some(format) => match check_line_lengths(bytes, 0, limits.max_line_bytes as int) {
                    Err(e) => Err(e),
                    Ok(_) => {
                        let text = crate::text::utf8_lossy(bytes);
                        match format {
                            PlaylistFormat::M3u => spec_parse_m3u(text, limits.max_entries as int),
                            PlaylistFormat::Pls => spec_parse_pls(text, limits.max_entries as int),
                            PlaylistFormat::Plain => spec_parse_plain(text, limits.max_entries as int),
                            PlaylistFormat::Hls => Ok(None),
                        }
                    },
                },
            }
        },
    }
}

fn ascii_literal(text: &str) -> (bytes: Vec<u8>)
    requires
        forall|i: int| 0 <= i < text@.len() ==> (#[trigger] text@[i] as u32) < 128,
    ensures
        bytes@ == text@.map_values(|c: char| c as u8),
{
    ascii_bytes_of(text)
}

fn detect(bytes: &[u8], include_plain: bool) -> (result: Option<PlaylistFormat>)
    ensures
        result == detect_format(bytes@, include_plain),
{
    proof {
        reveal_strlit("#EXTM3U");
        reveal_strlit("#EXTINF");
        reveal_strlit("[playlist]");
        reveal_strlit("[Playlist]");
    }
    let extm3u = ascii_literal("#EXTM3U");
    let extinf = ascii_literal("#EXTINF");
    let pls_lower = ascii_literal("[playlist]");
    let pls_upper = ascii_literal("[Playlist]");
    if starts_with_bytes(bytes, extm3u.as_slice()) || starts_with_bytes(bytes, extinf.as_slice()) {
        return Some(PlaylistFormat::M3u);
    }
    if starts_with_bytes(bytes, pls_lower.as_slice()) || starts_with_bytes(
        bytes,
        pls_upper.as_slice(),
    ) {
        return Some(PlaylistFormat::Pls);
    }
    if include_plain {
        let n = if bytes.len() < PLAIN_PROBE_BYTES {
            bytes.len()
        } else {
            PLAIN_PROBE_BYTES
        };
        let head = &bytes[0..n];
        proof {
            assert(head@ =~= bytes@.take(n as int));
        }
        if starts_with_supported_identifier(head) {
            return Some(PlaylistFormat::Plain);
        }
    }
    None
}

/// Probes bounded bytes for the M3U, PLS and plain-list boundaries.
///
/// Plain-list detection is opt-in because its only signature is an HTTP-compatible identifier at
/// byte zero. M3U and PLS retain their reference probe order. Invalid UTF-8 outside an identifier
/// is replaced without permitting unbounded text. A bounded input that does not match a playlist
/// gives `Ok(None)`.
pub fn probe_playlist(bytes: &[u8], include_plain: bool, limits: PlaylistLimits) -> (result: Result<
    Option<PlaylistMatch>,
    PlaylistError,
>)
    ensures
        match spec_probe_playlist(bytes@, include_plain, limits) {
            Ok(m) => result matches Ok(r) && opt_match_view(r) == m,
            Err(e) => result == Err::<Option<PlaylistMatch>, PlaylistError>(e),
        },
{
    limits.validate()?;
    if bytes.len() > limits.max_playlist_bytes {
        return Err(PlaylistError::TooLarge { actual: bytes.len(), limit: limits.max_playlist_bytes });
    }
    let detected = match detect(bytes, include_plain) {
        Some(f) => f,
        None => {
            return Ok(None);
        },
    };
    validate_line_lengths(bytes, limits.max_line_bytes)?;
    let text = crate::text::decode_utf8_lossy(bytes);
    let chars = chars_of(text.as_str());
    match detected {
        PlaylistFormat::M3u => parse_m3u(chars.as_slice(), limits),
        PlaylistFormat::Pls => parse_pls(chars.as_slice(), limits),
        PlaylistFormat::Plain => parse_plain(chars.as_slice(), limits),
        PlaylistFormat::Hls => Ok(None),
    }
}

// ---------------------------------------------------------------------------------------------
// Laws of probing
// ---------------------------------------------------------------------------------------------

/// An identifier of the `http` or `https` scheme.
pub open spec fn http_identifier(s: Seq<char>) -> bool {
    has_prefix(s, "http://"@) || has_prefix(s, "https://"@)
}

proof fn lemma_normalized_is_http(s: Seq<char>)
    requires
        supported_identifier(s),
    ensures
        http_identifier(normalized_identifier(s)),
{
    reveal_strlit("icy://");
    reveal_strlit("http://");
    if has_prefix(s, "icy://"@) {
        let n = "http://"@ + s.skip("icy://"@.len() as int);
        assert(n.take("http://"@.len() as int) =~= "http://"@);
    }
}

proof fn lemma_m3u_referral(s: M3uState, lines: Seq<Seq<char>>, limit: int)
    requires
        s.referral matches Some(r) ==> http_identifier(r),
    ensures
        m3u_fold(s, lines, limit) matches Ok(s2) ==> (s2.referral matches Some(r) ==> http_identifier(r)),
    decreases lines.len(),
{
    if lines.len() > 0 {
        let line = crate::text::trim(lines[0]);
        if supported_identifier(line) {
            lemma_normalized_is_http(line);
        }
        match m3u_step(s, lines[0], limit) {
            Err(_) => {},
            Ok(s2) => lemma_m3u_referral(s2, lines.skip(1), limit),
        }
    }
}

pub open spec fn pls_identifiers_http(entries: Seq<PlsView>) -> bool {
    forall|i: int|
        0 <= i < entries.len() ==> ((#[trigger] entries[i]).identifier matches Some(r)
            ==> http_identifier(r))
}

proof fn lemma_pls_identifiers(entries: Seq<PlsView>, lines: Seq<Seq<char>>, limit: int)
    requires
        pls_identifiers_http(entries),
    ensures
        pls_fold(entries, lines, limit) matches Ok(e2) ==> pls_identifiers_http(e2),
    decreases lines.len(),
{
    if lines.len() > 0 {
        let line = crate::text::trim(lines[0]);
        match split_once(line, '=') {
            None => {},
            Some((key, value)) => {
                if supported_identifier(value) {
                    lemma_normalized_is_http(value);
                }
                match spec_pls_key(key) {
                    None => {},
                    Some((index, is_file)) => {
                        lemma_pls_position(entries, index);
                        match pls_position(entries, index) {
                            Some(p) => {
                                let e2 = entries.update(p, pls_apply(entries[p], is_file, value));
                                assert forall|i: int| 0 <= i < e2.len() implies ((
                                #[trigger] e2[i]).identifier matches Some(r) ==> http_identifier(r)) by {
                                    if i != p {
                                        assert(e2[i] == entries[i]);
                                    }
                                }
                            },
                            None => {
                                let fresh = pls_apply(
                                    PlsView { index, identifier: None, title: None },
                                    is_file,
                                    value,
                                );
                                let e2 = entries.push(fresh);
                                assert forall|i: int| 0 <= i < e2.len() implies ((
                                #[trigger] e2[i]).identifier matches Some(r) ==> http_identifier(r)) by {
                                    if i < entries.len() {
                                        assert(e2[i] == entries[i]);
                                    }
                                }
                            },
                        }
                    },
                }
            },
        }
        match pls_step(entries, lines[0], limit) {
            Err(_) => {},
            Ok(e2) => {
                assert(pls_identifiers_http(e2));
                lemma_pls_identifiers(e2, lines.skip(1), limit);
            },
        }
    }
}

proof fn lemma_plain_first(first: Option<Seq<char>>, entries: int, lines: Seq<Seq<char>>, limit: int)
    requires
        first matches Some(r) ==> http_identifier(r),
    ensures
        plain_fold(first, entries, lines, limit) matches Ok(f) ==> (f matches Some(r) ==> http_identifier(r)),
    decreases lines.len(),
{
    if lines.len() > 0 {
        let line = trim_trailing_cr(lines[0]);
        if supported_identifier(line) {
            lemma_normalized_is_http(line);
            if entries != limit {
                lemma_plain_first(
                    if first is None {
                        Some(normalized_identifier(line))
                    } else {
                        first
                    },
                    entries + 1,
                    lines.skip(1),
                    limit,
                );
            }
        } else {
            lemma_plain_first(first, entries, lines.skip(1), limit);
        }
    }
}

/// A probe refuses input over the size limit; input that starts with no playlist header (and,
/// when plain lists are allowed, with no supported identifier) is no playlist; and the
/// reference found in an M3U, PLS or plain list is an `http` or `https` identifier.
pub proof fn law_probe_finds_http_references(bytes: Seq<u8>, include_plain: bool, limits: PlaylistLimits)
    ensures
        limits.spec_validate() is Ok && bytes.len() > limits.max_playlist_bytes ==> spec_probe_playlist(
            bytes,
            include_plain,
            limits,
        ) == Err::<Option<MatchView>, PlaylistError>(
            PlaylistError::TooLarge { actual: bytes.len() as usize, limit: limits.max_playlist_bytes },
        ),
        limits.spec_validate() is Ok && bytes.len() <= limits.max_playlist_bytes && detect_format(
            bytes,
            include_plain,
        ) is None ==> spec_probe_playlist(bytes, include_plain, limits) == Ok::<
            Option<MatchView>,
            PlaylistError,
        >(None),
        spec_probe_playlist(bytes, include_plain, limits) matches Ok(Some(m)) ==> (m.format
            != PlaylistFormat::Hls ==> http_identifier(m.identifier)),
{
    let text = crate::text::utf8_lossy(bytes);
    let limit = limits.max_entries as int;
    lemma_m3u_referral(
        M3uState { referral: None, hls: None, pending: false, entries: 0 },
        crate::text::lines(text),
        limit,
    );
    lemma_pls_identifiers(Seq::empty(), lines_after_first(text), limit);
    match pls_fold(Seq::empty(), lines_after_first(text), limit) {
        Ok(entries) => lemma_pls_best(entries),
        Err(_) => {},
    }
    lemma_plain_first(None, 0, crate::text::lines(text), limit);
}

/// The text of some URI that parses as an absolute `http` or `https` URI with an authority and
/// no user information.
pub open spec fn accepted_http_text(t: Seq<char>) -> bool {
    exists|x: Seq<char>| #[trigger] spec_parse_absolute_http(x) matches Ok(u) && u.text == t
}

/// Resolution fails for a base that is no absolute `http(s)` URI without user information, and
/// for a reference whose scheme is neither `http` nor `https` (a colon before its first `/` or
/// `?`, not written `//`); every resolved reference is the text of an accepted absolute
/// `http(s)` URI without user information.
pub proof fn law_resolved_references_are_http(base: Seq<char>, reference: Seq<char>)
    ensures
        spec_parse_absolute_http(base) is Err ==> spec_resolve_http_reference(base, reference) is Err,
        ({
            let r = before_fragment(reference);
            spec_parse_absolute_http(base) is Ok && !has_prefix(r, "http://"@) && !has_prefix(
                r,
                "https://"@,
            ) && !has_prefix(r, "//"@) && contains_char(r.take(first_piece_end(r)), ':')
                ==> spec_resolve_http_reference(base, reference) is Err
        }),
        spec_resolve_http_reference(base, reference) matches Ok(t) ==> accepted_http_text(t),
{
    match spec_resolve_http_reference(base, reference) {
        Ok(t) => {
            let b = spec_parse_absolute_http(base)->Ok_0;
            let r = before_fragment(reference);
            if has_prefix(r, "http://"@) || has_prefix(r, "https://"@) {
                assert(spec_parse_absolute_http(r) is Ok);
            } else if has_prefix(r, "//"@) {
                assert(spec_parse_absolute_http(b.scheme->0 + ":"@ + r) is Ok);
            } else {
                let reference_path = match split_once(r, '?') {
                    Some((p, _)) => p,
                    None => r,
                };
                let reference_query = match split_once(r, '?') {
                    Some((_, q)) => Some(q),
                    None => None,
                };
                let path = if reference_path.len() == 0 {
                    b.path
                } else if has_prefix(reference_path, "/"@) {
                    removed_dot_segments(reference_path)
                } else {
                    let prefix_end = match rfind_char(b.path, '/') {
                        Some(i) => i + 1,
                        None => 0,
                    };
                    removed_dot_segments(
                        (if prefix_end == 0 {
                            "/"@
                        } else {
                            b.path.take(prefix_end)
                        }) + reference_path,
                    )
                };
                let query = if reference_path.len() == 0 && reference_query is None {
                    b.query
                } else {
                    reference_query
                };
                let resolved = b.scheme->0 + "://"@ + b.authority->0 + path + match query {
                    Some(q) => "?"@ + q,
                    None => Seq::empty(),
                };
                assert(spec_parse_absolute_http(resolved) is Ok);
            }
        },
        Err(_) => {},
    }
}

// ---------------------------------------------------------------------------------------------
// Loading a playlist over HTTP
// ---------------------------------------------------------------------------------------------

/// The streamed-response policy a playlist fetch applies: its byte ceiling.
#[derive(Clone, Copy, Debug, PartialEq, Eq)]
pub struct HttpStreamOptions {
    pub max_response_bytes: u64,
}

/// Combined HTTP and parser policy for loading one playlist response.
#[derive(Clone, Copy, Debug, PartialEq, Eq)]
pub struct HttpPlaylistOptions {
    pub http: HttpStreamOptions,
    pub playlist: PlaylistLimits,
    pub include_plain: bool,
}

/// Why a playlist could not be loaded: the fetch failed, or the playlist was refused.
#[derive(Debug)]
pub enum PlaylistLoadError {
    Media(crate::media::MediaError),
    Playlist(PlaylistError),
}

impl HttpPlaylistOptions {
    /// The default limits, with the response ceiling set to the playlist byte limit and plain
    /// lists not probed.
    pub fn default_options() -> (options: Self)
        ensures
            options.playlist.max_playlist_bytes == 1024 * 1024,
            options.playlist.max_line_bytes == 16 * 1024,
            options.playlist.max_entries == 1_000,
            options.http.max_response_bytes == options.playlist.max_playlist_bytes,
            !options.include_plain,
    {
        let playlist = PlaylistLimits::default_limits();
        HttpPlaylistOptions {
            http: HttpStreamOptions { max_response_bytes: playlist.max_playlist_bytes as u64 },
            playlist,
            include_plain: false,
        }
    }

    /// The streamed-response policy for the fetch: the playlist limits must be valid, and the
    /// response ceiling is lowered to the playlist byte limit.
    pub fn response_options(&self) -> (result: Result<HttpStreamOptions, PlaylistLoadError>)
        ensures
            match self.playlist.spec_validate() {
                Err(e) => result matches Err(PlaylistLoadError::Playlist(r)) && r == e,
                Ok(_) => result matches Ok(o) && o.max_response_bytes == if (
                self.http.max_response_bytes as int) <= self.playlist.max_playlist_bytes as int {
                    self.http.max_response_bytes as int
                } else {
                    self.playlist.max_playlist_bytes as int
                },
            },
    {
        match self.playlist.validate() {
            Err(e) => Err(PlaylistLoadError::Playlist(e)),
            Ok(limits) => {
                let cap = limits.max_playlist_bytes as u64;
                let max = if self.http.max_response_bytes <= cap {
                    self.http.max_response_bytes
                } else {
                    cap
                };
                Ok(HttpStreamOptions { max_response_bytes: max })
            },
        }
    }
}

/// What a fetched playlist response selects: the probe's match, with its reference resolved
/// against the response's final URI.
pub open spec fn spec_match_playlist_response(
    base: Seq<char>,
    bytes: Seq<u8>,
    options: HttpPlaylistOptions,
) -> Result<Option<MatchView>, PlaylistError> {
    match spec_probe_playlist(bytes, options.include_plain, options.playlist) {
        Err(e) => Err(e),
        Ok(None) => Ok(None),
        Ok(Some(m)) => match spec_resolve_http_reference(base, m.identifier) {
            Err(e) => Err(e),
            Ok(identifier) => Ok(Some(MatchView { identifier, ..m })),
        },
    }
}

/// Probes a fetched playlist response and resolves the selected reference against `base`, the
/// response's final URI.
pub fn match_playlist_response(base: &str, bytes: &[u8], options: &HttpPlaylistOptions) -> (result:
    Result<Option<PlaylistMatch>, PlaylistLoadError>)
    ensures
        match spec_match_playlist_response(base@, bytes@, *options) {
            Ok(m) => result matches Ok(r) && opt_match_view(r) == m,
            Err(e) => result matches Err(PlaylistLoadError::Playlist(r)) && r == e,
        },
{
    match probe_playlist(bytes, options.include_plain, options.playlist) {
        Err(e) => Err(PlaylistLoadError::Playlist(e)),
        Ok(None) => Ok(None),
        Ok(Some(matched)) => match resolve_http_reference(base, matched.reference.identifier.as_str()) {
            Err(e) => Err(PlaylistLoadError::Playlist(e)),
            Ok(identifier) => {
                let PlaylistMatch { format, reference } = matched;
                Ok(
                    Some(
                        PlaylistMatch {
                            format,
                            reference: PlaylistReference { identifier, title: reference.title },
                        },
                    ),
                )
            },
        },
    }
}

} // verus!
