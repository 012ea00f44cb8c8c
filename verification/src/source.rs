use vstd::prelude::*;

use crate::duration::Duration;
use crate::http_policy::HttpRangeOptions;
use crate::media::{Container, MediaError, MediaInfo, MediaLimits};
use crate::playlist::{HttpPlaylistOptions, PlaylistFormat, PlaylistLoadError, PlaylistMatch};
use crate::track::{copy_opt_text, copy_text, opt_text, TrackInfo, TrackInfoView};
use crate::playlist::seq_equal;
use crate::text::{chars_of, copy_range, has_prefix, starts_with, string_from_chars};

verus! {

/// The container probe recorded with a track so that it can be reopened without probing.
#[derive(Clone, Copy, Debug, PartialEq, Eq, Structural)]
pub enum MediaProbe {
    Wave,
    MatroskaWebM,
    Mp4,
    Flac,
    Ogg,
    Mp3,
    Adts,
    HlsOuter,
}

/// The failure a source manager reports to its registry.
#[derive(Clone, Copy, Debug, PartialEq, Eq, Structural)]
pub enum SourceRegistryError {
    SourceFailure,
    Shutdown,
    NotEncodable,
}

pub open spec fn spec_probe_name(probe: MediaProbe) -> &'static str {
    match probe {
        MediaProbe::Wave => "wav",
        MediaProbe::MatroskaWebM => "matroska/webm",
        MediaProbe::Mp4 => "mp4",
        MediaProbe::Flac => "flac",
        MediaProbe::Ogg => "ogg",
        MediaProbe::Mp3 => "mp3",
        MediaProbe::Adts => "adts",
        MediaProbe::HlsOuter => "m3u|hls-outer",
    }
}

/// The probe that a serialized name stands for.
pub open spec fn spec_probe_from_name(name: Seq<char>) -> Option<MediaProbe> {
    if name == "wav"@ {
        Some(MediaProbe::Wave)
    } else if name == "matroska/webm"@ {
        Some(MediaProbe::MatroskaWebM)
    } else if name == "mp4"@ {
        Some(MediaProbe::Mp4)
    } else if name == "flac"@ {
        Some(MediaProbe::Flac)
    } else if name == "ogg"@ {
        Some(MediaProbe::Ogg)
    } else if name == "mp3"@ {
        Some(MediaProbe::Mp3)
    } else if name == "adts"@ {
        Some(MediaProbe::Adts)
    } else if name == "m3u|hls-outer"@ {
        Some(MediaProbe::HlsOuter)
    } else {
        None
    }
}

impl MediaProbe {
    pub fn serialized_name(self) -> (name: &'static str)
        ensures
            name == spec_probe_name(self),
    {
        match self {
            MediaProbe::Wave => "wav",
            MediaProbe::MatroskaWebM => "matroska/webm",
            MediaProbe::Mp4 => "mp4",
            MediaProbe::Flac => "flac",
            MediaProbe::Ogg => "ogg",
            MediaProbe::Mp3 => "mp3",
            MediaProbe::Adts => "adts",
            MediaProbe::HlsOuter => "m3u|hls-outer",
        }
    }

    pub fn from_serialized_name(name: &[char]) -> (probe: Option<Self>)
        ensures
            probe == spec_probe_from_name(name@),
    {
        if seq_equal(name, chars_of("wav").as_slice()) {
            Some(MediaProbe::Wave)
        } else if seq_equal(name, chars_of("matroska/webm").as_slice()) {
            Some(MediaProbe::MatroskaWebM)
        } else if seq_equal(name, chars_of("mp4").as_slice()) {
            Some(MediaProbe::Mp4)
        } else if seq_equal(name, chars_of("flac").as_slice()) {
            Some(MediaProbe::Flac)
        } else if seq_equal(name, chars_of("ogg").as_slice()) {
            Some(MediaProbe::Ogg)
        } else if seq_equal(name, chars_of("mp3").as_slice()) {
            Some(MediaProbe::Mp3)
        } else if seq_equal(name, chars_of("adts").as_slice()) {
            Some(MediaProbe::Adts)
        } else if seq_equal(name, chars_of("m3u|hls-outer").as_slice()) {
            Some(MediaProbe::HlsOuter)
        } else {
            None
        }
    }

    /// The probe recorded for a container; WebM and Matroska share one.
    pub fn from_container(container: Container) -> (probe: Self)
        ensures
            probe == spec_probe_of(container),
    {
        match container {
            Container::Wave => MediaProbe::Wave,
            Container::WebM | Container::Matroska => MediaProbe::MatroskaWebM,
            Container::Mp4 => MediaProbe::Mp4,
            Container::Flac => MediaProbe::Flac,
            Container::Ogg => MediaProbe::Ogg,
            Container::Mp3 => MediaProbe::Mp3,
            Container::Adts => MediaProbe::Adts,
        }
    }
}

/// The ASCII bytes of a serialized probe name.
pub open spec fn name_bytes(name: Seq<char>) -> Seq<u8> {
    name.map_values(|c: char| c as u8)
}

/// The probe record: a big-endian 16-bit length, then the name bytes.
pub open spec fn spec_encode_probe(probe: MediaProbe) -> Seq<u8> {
    let name = name_bytes(spec_probe_name(probe)@);
    seq![(name.len() / 256) as u8, (name.len() % 256) as u8] + name
}

proof fn lemma_probe_names_ascii(probe: MediaProbe)
    ensures
        spec_probe_name(probe)@.len() < 256,
        forall|i: int|
            0 <= i < spec_probe_name(probe)@.len() ==> (#[trigger] spec_probe_name(probe)@[i] as u32)
                < 128,
        vstd::utf8::is_ascii_chars(spec_probe_name(probe)@),
{
    reveal_strlit("wav");
    reveal_strlit("matroska/webm");
    reveal_strlit("mp4");
    reveal_strlit("flac");
    reveal_strlit("ogg");
    reveal_strlit("mp3");
    reveal_strlit("adts");
    reveal_strlit("m3u|hls-outer");
}

/// Encodes a probe as the length-prefixed record that a track carries.
pub fn encode_probe(probe: MediaProbe) -> (result: Result<Vec<u8>, SourceRegistryError>)
    ensures
        result matches Ok(v) && v@ == spec_encode_probe(probe),
{
    let name = probe.serialized_name();
    proof {
        lemma_probe_names_ascii(probe);
    }
    let mut bytes = crate::playlist::ascii_bytes_of(name);
    let length = bytes.len();
    let mut payload: Vec<u8> = Vec::new();
    payload.push((length / 256) as u8);
    payload.push((length % 256) as u8);
    let ghost head = payload@;
    let ghost body = bytes@;
    payload.append(&mut bytes);
    proof {
        assert(payload@ =~= head + body);
    }
    Ok(payload)
}

/// Decodes a probe record: exactly as many name bytes as the length declares, naming a probe.
pub open spec fn spec_decode_probe(payload: Seq<u8>) -> Result<MediaProbe, SourceRegistryError> {
    if payload.len() < 2 {
        Err(SourceRegistryError::SourceFailure)
    } else {
        let length = payload[0] as int * 256 + payload[1] as int;
        let rest = payload.skip(2);
        if rest.len() != length {
            Err(SourceRegistryError::SourceFailure)
        } else {
            match spec_utf8_name(rest) {
                None => Err(SourceRegistryError::SourceFailure),
                Some(name) => match spec_probe_from_name(name) {
                    Some(p) => Ok(p),
                    None => Err(SourceRegistryError::SourceFailure),
                },
            }
        }
    }
}

/// The text of a name record when it is valid UTF-8.
pub open spec fn spec_utf8_name(bytes: Seq<u8>) -> Option<Seq<char>> {
    if vstd::utf8::valid_utf8(bytes) {
        Some(vstd::utf8::decode_utf8(bytes))
    } else {
        None
    }
}

/// A probe's serialized name reads back as that probe.
pub proof fn law_probe_name_round_trip(probe: MediaProbe)
    ensures
        spec_probe_from_name(spec_probe_name(probe)@) == Some(probe),
{
    reveal_strlit("wav");
    reveal_strlit("matroska/webm");
    reveal_strlit("mp4");
    reveal_strlit("flac");
    reveal_strlit("ogg");
    reveal_strlit("mp3");
    reveal_strlit("adts");
    reveal_strlit("m3u|hls-outer");
    assert("wav"@[0] != "mp4"@[0]);
    assert("wav"@[0] != "ogg"@[0]);
    assert("wav"@[0] != "mp3"@[0]);
    assert("mp4"@[0] != "ogg"@[0]);
    assert("mp4"@[2] != "mp3"@[2]);
    assert("ogg"@[0] != "mp3"@[0]);
    assert("flac"@[0] != "adts"@[0]);
    assert("matroska/webm"@[1] != "m3u|hls-outer"@[1]);
}

/// A probe record decodes to the probe it was encoded from: serialized tracks keep their
/// probe.
pub proof fn law_probe_record_round_trip(probe: MediaProbe)
    ensures
        spec_decode_probe(spec_encode_probe(probe)) == Ok::<MediaProbe, SourceRegistryError>(probe),
{
    let name = spec_probe_name(probe)@;
    lemma_probe_names_ascii(probe);
    law_probe_name_round_trip(probe);
    vstd::utf8::is_ascii_chars_encode_utf8(name);
    let bytes = name_bytes(name);
    assert(bytes =~= vstd::utf8::encode_utf8(name));
    vstd::utf8::encode_utf8_valid_utf8(name);
    vstd::utf8::encode_utf8_decode_utf8(name);
    let record = spec_encode_probe(probe);
    assert(bytes.len() == name.len());
    assert(record.skip(2) =~= bytes);
    assert(record[0] == 0u8);
    assert(record[1] as int == bytes.len());
}

/// Decodes bytes as UTF-8, failing on invalid input.
///
/// Calls `std::str::from_utf8`; its documentation says it succeeds exactly on valid UTF-8 and
/// then yields the decoded text, which the contract states with vstd's UTF-8 model.
#[verifier::external_body]
pub(crate) fn utf8_text(bytes: &[u8]) -> (text: Option<Vec<char>>)
    ensures
        crate::uri::opt_chars_view(text) == spec_utf8_name(bytes@),
{
    std::str::from_utf8(bytes).ok().map(|s| s.chars().collect())
}

pub fn decode_probe(payload: &[u8]) -> (result: Result<MediaProbe, SourceRegistryError>)
    ensures
        result == spec_decode_probe(payload@),
{
    if payload.len() < 2 {
        return Err(SourceRegistryError::SourceFailure);
    }
    let length = payload[0] as usize * 256 + payload[1] as usize;
    let rest = &payload[2..payload.len()];
    proof {
        assert(rest@ =~= payload@.skip(2));
    }
    if rest.len() != length {
        return Err(SourceRegistryError::SourceFailure);
    }
    let name = match utf8_text(rest) {
        Some(n) => n,
        None => {
            return Err(SourceRegistryError::SourceFailure);
        },
    };
    match MediaProbe::from_serialized_name(name.as_slice()) {
        Some(p) => Ok(p),
        None => Err(SourceRegistryError::SourceFailure),
    }
}

// ---------------------------------------------------------------------------------------------
// Identifiers
// ---------------------------------------------------------------------------------------------

/// HTTP(S) identifiers are kept; `icy://` becomes plain HTTP; every other scheme is refused.
pub open spec fn spec_normalize_http_identifier(identifier: Seq<char>) -> Option<Seq<char>> {
    if has_prefix(identifier, "http://"@) || has_prefix(identifier, "https://"@) {
        Some(identifier)
    } else if has_prefix(identifier, "icy://"@) {
        Some("http://"@ + identifier.skip("icy://"@.len() as int))
    } else {
        None
    }
}

pub fn normalize_http_identifier(identifier: &str) -> (result: Option<String>)
    ensures
        crate::playlist::opt_string_seq(result) == spec_normalize_http_identifier(identifier@),
{
    let text = chars_of(identifier);
    let http = chars_of("http://");
    let https = chars_of("https://");
    let icy = chars_of("icy://");
    if starts_with(text.as_slice(), http.as_slice()) || starts_with(
        text.as_slice(),
        https.as_slice(),
    ) {
        return Some(string_from_chars(text.as_slice()));
    }
    if starts_with(text.as_slice(), icy.as_slice()) {
        let mut out = chars_of("http://");
        let mut rest = copy_range(text.as_slice(), icy.len(), text.len());
        let ghost head = out@;
        let ghost tail = rest@;
        out.append(&mut rest);
        proof {
            assert(out@ =~= head + tail);
        }
        return Some(string_from_chars(out.as_slice()));
    }
    None
}

/// The part of an identifier before its first `?` or `#`.
pub open spec fn before_query(s: Seq<char>) -> Seq<char>
    decreases s.len(),
{
    if s.len() == 0 || s[0] == '?' || s[0] == '#' {
        Seq::empty()
    } else {
        seq![s[0]] + before_query(s.drop_first())
    }
}

pub open spec fn ascii_lower(c: char) -> char {
    if 'A' <= c && c <= 'Z' {
        ((c as u8) + 32) as char
    } else {
        c
    }
}

pub open spec fn has_suffix(s: Seq<char>, suffix: Seq<char>) -> bool {
    suffix.len() <= s.len() && s.skip(s.len() - suffix.len()) == suffix
}

/// The identifier's path names an M3U, M3U8 or PLS playlist, compared without ASCII case.
pub open spec fn spec_is_playlist_identifier(identifier: Seq<char>) -> bool {
    let path = before_query(identifier).map_values(|c: char| ascii_lower(c));
    has_suffix(path, ".m3u"@) || has_suffix(path, ".m3u8"@) || has_suffix(path, ".pls"@)
}

fn query_start(s: &[char]) -> (end: usize)
    ensures
        end <= s@.len(),
        s@.take(end as int) == before_query(s@),
{
    let mut i: usize = 0;
    proof {
        assert(s@.skip(0) =~= s@);
        assert(s@.take(0) + before_query(s@) =~= before_query(s@));
    }
    while i < s.len() && s[i] != '?' && s[i] != '#'
        invariant
            i <= s@.len(),
            before_query(s@) == s@.take(i as int) + before_query(s@.skip(i as int)),
        decreases s@.len() - i,
    {
        proof {
            assert(s@.skip(i as int).drop_first() =~= s@.skip(i + 1));
            assert(s@.take(i + 1) =~= s@.take(i as int) + seq![s@[i as int]]);
        }
        i = i + 1;
    }
    proof {
        if i < s@.len() {
            assert(s@.skip(i as int)[0] == s@[i as int]);
        }
        assert(before_query(s@.skip(i as int)) =~= Seq::<char>::empty());
        assert(s@.take(i as int) + Seq::<char>::empty() =~= s@.take(i as int));
    }
    i
}

fn ends_with(s: &[char], suffix: &[char]) -> (result: bool)
    ensures
        result == has_suffix(s@, suffix@),
{
    if suffix.len() > s.len() {
        return false;
    }
    let tail = copy_range(s, s.len() - suffix.len(), s.len());
    proof {
        assert(tail@ =~= s@.skip(s@.len() - suffix@.len()));
    }
    seq_equal(tail.as_slice(), suffix)
}

pub fn is_playlist_identifier(identifier: &str) -> (result: bool)
    ensures
        result == spec_is_playlist_identifier(identifier@),
{
    let text = chars_of(identifier);
    let end = query_start(text.as_slice());
    let mut path: Vec<char> = Vec::new();
    let mut i: usize = 0;
    while i < end
        invariant
            i <= end <= text@.len(),
            path@ == text@.take(i as int).map_values(|c: char| ascii_lower(c)),
        decreases end - i,
    {
        let c = text[i];
        let lower = if 'A' <= c && c <= 'Z' {
            ((c as u8) + 32) as char
        } else {
            c
        };
        path.push(lower);
        proof {
            assert(text@.take(i + 1) =~= text@.take(i as int).push(c));
            assert(path@ =~= text@.take(i + 1).map_values(|c: char| ascii_lower(c)));
        }
        i = i + 1;
    }
    ends_with(path.as_slice(), chars_of(".m3u").as_slice()) || ends_with(
        path.as_slice(),
        chars_of(".m3u8").as_slice(),
    ) || ends_with(path.as_slice(), chars_of(".pls").as_slice())
}

/// The last `/`-separated piece of a path, and after its last `.` the extension, if non-empty.
pub open spec fn spec_extension_hint(identifier: Seq<char>) -> Option<Seq<char>> {
    let path = before_query(identifier);
    let name = match crate::playlist::rfind_char(path, '/') {
        Some(i) => path.skip(i + 1),
        None => path,
    };
    match crate::playlist::rfind_char(name, '.') {
        Some(i) => if i + 1 < name.len() {
            Some(name.skip(i + 1))
        } else {
            None
        },
        None => None,
    }
}

pub fn extension_hint(identifier: &str) -> (result: Option<String>)
    ensures
        crate::playlist::opt_string_seq(result) == spec_extension_hint(identifier@),
{
    let text = chars_of(identifier);
    let end = query_start(text.as_slice());
    let path = copy_range(text.as_slice(), 0, end);
    proof {
        crate::playlist::lemma_rfind_char(path@, '/');
    }
    let name = match crate::playlist::rfind_char_index(path.as_slice(), '/') {
        Some(i) => copy_range(path.as_slice(), i + 1, path.len()),
        None => copy_range(path.as_slice(), 0, path.len()),
    };
    proof {
        assert(path@ =~= before_query(text@));
        assert(path@.subrange(0, path@.len() as int) =~= path@);
        crate::playlist::lemma_rfind_char(name@, '.');
        match crate::playlist::rfind_char(path@, '/') {
            Some(i) => {
                assert(name@ =~= path@.skip(i + 1));
            },
            None => {},
        }
    }
    match crate::playlist::rfind_char_index(name.as_slice(), '.') {
        Some(i) => {
            if i + 1 < name.len() {
                let extension = copy_range(name.as_slice(), i + 1, name.len());
                proof {
                    assert(extension@ =~= name@.skip(i + 1));
                }
                Some(string_from_chars(extension.as_slice()))
            } else {
                None
            }
        },
        None => None,
    }
}

// ---------------------------------------------------------------------------------------------
// Track descriptions
// ---------------------------------------------------------------------------------------------

/// A path without what `Path` ignores at its end: separators and `.` components.
pub open spec fn trim_path_end(s: Seq<char>) -> Seq<char>
    decreases s.len(),
{
    if s.len() > 0 && s.last() == '/' {
        trim_path_end(s.drop_last())
    } else if s.len() == 1 && s[0] == '.' {
        Seq::empty()
    } else if s.len() >= 2 && s.last() == '.' && s[s.len() - 2] == '/' {
        trim_path_end(s.drop_last())
    } else {
        s
    }
}

/// The text after the last `/`, or all of it when there is none.
pub open spec fn after_last_slash(s: Seq<char>) -> Seq<char>
    decreases s.len(),
{
    if s.len() == 0 {
        s
    } else if s.last() == '/' {
        Seq::empty()
    } else {
        after_last_slash(s.drop_last()).push(s.last())
    }
}

/// The final component of a Unix path, as `Path::file_name` reads it: none for an empty or root
/// path, for `.`, or for a path that ends in `..`.
pub open spec fn spec_file_name(path: Seq<char>) -> Option<Seq<char>> {
    let t = trim_path_end(path);
    let name = after_last_slash(t);
    if t.len() == 0 || name == seq!['.', '.'] {
        None
    } else {
        Some(name)
    }
}

/// The final component of a Unix path, if it names something.
pub fn path_file_name(path: &str) -> (name: Option<String>)
    ensures
        opt_text(name) == spec_file_name(path@),
{
    let c = chars_of(path);
    let mut end: usize = c.len();
    assert(c@.take(end as int) =~= c@);
    loop
        invariant
            end <= c@.len(),
            trim_path_end(c@) == trim_path_end(c@.take(end as int)),
        ensures
            end <= c@.len(),
            trim_path_end(c@) == c@.take(end as int),
        decreases end,
    {
        let t = Ghost(c@.take(end as int));
        if end > 0 && c[end - 1] == '/' {
            assert(t@.drop_last() =~= c@.take(end - 1));
            end = end - 1;
        } else if end == 1 && c[0] == '.' {
            assert(c@.take(0) =~= Seq::<char>::empty());
            end = 0;
        } else if end >= 2 && c[end - 1] == '.' && c[end - 2] == '/' {
            assert(t@.drop_last() =~= c@.take(end - 1));
            end = end - 1;
        } else {
            break;
        }
    }
    let mut start: usize = end;
    assert(c@.subrange(end as int, end as int) =~= Seq::<char>::empty());
    assert(after_last_slash(c@.take(end as int)) =~= after_last_slash(c@.take(end as int))
        + c@.subrange(end as int, end as int));
    while start > 0 && c[start - 1] != '/'
        invariant
            start <= end <= c@.len(),
            after_last_slash(c@.take(end as int)) == after_last_slash(c@.take(start as int))
                + c@.subrange(start as int, end as int),
        decreases start,
    {
        let ghost prev = c@.take(start as int);
        assert(prev.drop_last() =~= c@.take(start - 1));
        assert(c@.subrange(start - 1, end as int) =~= seq![c@[start - 1]] + c@.subrange(
            start as int,
            end as int,
        ));
        assert(after_last_slash(prev) == after_last_slash(c@.take(start - 1)).push(c@[start - 1]));
        assert(after_last_slash(c@.take(start - 1)).push(c@[start - 1]) + c@.subrange(
            start as int,
            end as int,
        ) =~= after_last_slash(c@.take(start - 1)) + c@.subrange(start - 1, end as int));
        start = start - 1;
    }
    assert(after_last_slash(c@.take(start as int)) =~= Seq::<char>::empty());
    assert(after_last_slash(c@.take(end as int)) =~= c@.subrange(start as int, end as int));
    if end == 0 {
        None
    } else if end - start == 2 && c[start] == '.' && c[start + 1] == '.' {
        assert(c@.subrange(start as int, end as int) =~= seq!['.', '.']);
        None
    } else {
        let name = copy_range(c.as_slice(), start, end);
        assert(name@ != seq!['.', '.']) by {
            if name@ == seq!['.', '.'] {
                assert(name@[0] == c@[start as int]);
                assert(name@[1] == c@[start + 1]);
            }
        }
        Some(string_from_chars(name.as_slice()))
    }
}

/// The title a track falls back to: the identifier's final path component, else the identifier.
pub open spec fn spec_fallback_title(identifier: Seq<char>) -> Seq<char> {
    match spec_file_name(identifier) {
        Some(name) => name,
        None => identifier,
    }
}

/// The description of a track opened from an identifier: the given title, else the metadata's,
/// else the fallback; an unknown author without one; no duration makes it a stream.
pub open spec fn spec_make_track_info(
    identifier: Seq<char>,
    media: MediaInfo,
    title: Option<Seq<char>>,
) -> TrackInfoView {
    TrackInfoView {
        title: match title {
            Some(t) => t,
            None => match opt_text(media.metadata.title) {
                Some(t) => t,
                None => spec_fallback_title(identifier),
            },
        },
        author: match opt_text(media.metadata.author) {
            Some(a) => a,
            None => "Unknown artist"@,
        },
        duration: match media.duration {
            Some(d) => d@,
            None => 0,
        },
        identifier,
        is_stream: media.duration is None,
        uri: Some(identifier),
        artwork_url: None,
        isrc: opt_text(media.metadata.isrc),
    }
}

/// Describes a track opened from `identifier` with the probed media information.
pub fn make_track_info(identifier: &str, media: &MediaInfo, title: Option<String>) -> (info:
    TrackInfo)
    ensures
        info@ == spec_make_track_info(identifier@, *media, opt_text(title)),
{
    let title = match title {
        Some(t) => t,
        None => match &media.metadata.title {
            Some(t) => copy_text(t.as_str()),
            None => match path_file_name(identifier) {
                Some(name) => name,
                None => copy_text(identifier),
            },
        },
    };
    let author = match &media.metadata.author {
        Some(a) => copy_text(a.as_str()),
        None => copy_text("Unknown artist"),
    };
    let duration = match media.duration {
        Some(d) => d,
        None => Duration::zero(),
    };
    TrackInfo {
        title,
        author,
        duration,
        identifier: copy_text(identifier),
        is_stream: media.duration.is_none(),
        uri: Some(copy_text(identifier)),
        artwork_url: None,
        isrc: copy_opt_text(&media.metadata.isrc),
    }
}

// ---------------------------------------------------------------------------------------------
// Managers
// ---------------------------------------------------------------------------------------------

/// Loads tracks from local files with the given media bounds.
pub struct LocalMediaSourceManager {
    media_limits: MediaLimits,
}

impl LocalMediaSourceManager {
    pub closed spec fn spec_limits(&self) -> MediaLimits {
        self.media_limits
    }

    pub fn new(media_limits: MediaLimits) -> (manager: Self)
        ensures
            manager.spec_limits() == media_limits,
    {
        LocalMediaSourceManager { media_limits }
    }

    pub fn media_limits(&self) -> (limits: MediaLimits)
        ensures
            limits == self.spec_limits(),
    {
        self.media_limits
    }

    pub fn source_name(&self) -> (name: &'static str)
        ensures
            name == "local",
    {
        "local"
    }
}

/// The probe recorded for a container; WebM and Matroska share one.
pub open spec fn spec_probe_of(container: Container) -> MediaProbe {
    match container {
        Container::Wave => MediaProbe::Wave,
        Container::WebM => MediaProbe::MatroskaWebM,
        Container::Matroska => MediaProbe::MatroskaWebM,
        Container::Mp4 => MediaProbe::Mp4,
        Container::Flac => MediaProbe::Flac,
        Container::Ogg => MediaProbe::Ogg,
        Container::Mp3 => MediaProbe::Mp3,
        Container::Adts => MediaProbe::Adts,
    }
}

/// A track a media source manager loaded, with the probe that reopens it.
#[derive(Debug)]
pub struct MediaSourceTrack {
    pub info: TrackInfo,
    pub probe: MediaProbe,
}

/// What loading an HTTP identifier gives: a track, or another identifier to load instead.
#[derive(Debug)]
pub enum HttpSourceLoad {
    Item(MediaSourceTrack),
    Referral(String),
}

/// The next thing an HTTP load needs done outside the library, or its result.
#[derive(Debug)]
pub enum HttpLoadAction {
    /// The load is over.
    Finish(Result<Option<HttpSourceLoad>, SourceRegistryError>),
    /// Fetch the playlist at this URL, then report to `after_playlist`.
    FetchPlaylist(String),
    /// Open a range input at this URL, then report its final URI to `after_range_open`.
    OpenRange(String),
    /// Probe the media at this URL with the extension hint, then report to `after_media_open`.
    OpenMedia { identifier: String, extension: Option<String> },
}

/// The policy of an HTTP media source: media bounds, range input and playlist loading.
#[derive(Clone, Copy, Debug, PartialEq, Eq)]
pub struct HttpMediaSourceOptions {
    pub media: MediaLimits,
    pub range: HttpRangeOptions,
    pub playlist: HttpPlaylistOptions,
}

impl HttpMediaSourceOptions {
    /// The default media bounds, range policy and playlist policy.
    pub fn default_options() -> (options: Self)
        ensures
            options.media.max_probe_bytes == 1024 * 1024,
            options.range.range_window_bytes == 256 * 1024,
            options.playlist.playlist.max_playlist_bytes == 1024 * 1024,
            options.playlist.http.max_response_bytes == 1024 * 1024,
            !options.playlist.include_plain,
    {
        HttpMediaSourceOptions {
            media: MediaLimits::default_limits(),
            range: HttpRangeOptions::default_options(),
            playlist: HttpPlaylistOptions::default_options(),
        }
    }
}

/// The description of a track for an HLS playlist: its title or the identifier, an unknown
/// author, no duration, and a stream.
pub open spec fn spec_hls_track_info(identifier: Seq<char>, title: Option<Seq<char>>) -> TrackInfoView {
    TrackInfoView {
        title: match title {
            Some(t) => t,
            None => identifier,
        },
        author: "Unknown artist"@,
        duration: 0,
        identifier,
        is_stream: true,
        uri: Some(identifier),
        artwork_url: None,
        isrc: None,
    }
}

/// Loads tracks from HTTP(S) and `icy://` identifiers, one step at a time: each step decides
/// what to do with what the previous outside work returned.
pub struct HttpMediaSourceManager {
    options: HttpMediaSourceOptions,
}

impl HttpMediaSourceManager {
    pub closed spec fn spec_options(&self) -> HttpMediaSourceOptions {
        self.options
    }

    pub fn new(options: HttpMediaSourceOptions) -> (manager: Self)
        ensures
            manager.spec_options() == options,
    {
        HttpMediaSourceManager { options }
    }

    pub fn options(&self) -> (options: HttpMediaSourceOptions)
        ensures
            options == self.spec_options(),
    {
        self.options
    }

    pub fn source_name(&self) -> (name: &'static str)
        ensures
            name == "http",
    {
        "http"
    }

    /// Starts a load: identifiers that are not HTTP(S) or `icy://` are not this source's;
    /// playlist paths are fetched as playlists first; the rest open a range input.
    pub fn begin_load(&self, identifier: Option<&str>) -> (action: HttpLoadAction)
        ensures
            match identifier {
                None => action matches HttpLoadAction::Finish(Ok(None)),
                Some(id) => match spec_normalize_http_identifier(id@) {
                    None => action matches HttpLoadAction::Finish(Ok(None)),
                    Some(n) => if spec_is_playlist_identifier(n) {
                        action matches HttpLoadAction::FetchPlaylist(u) && u@ == n
                    } else {
                        action matches HttpLoadAction::OpenRange(u) && u@ == n
                    },
                },
            },
    {
        match identifier {
            None => HttpLoadAction::Finish(Ok(None)),
            Some(id) => match normalize_http_identifier(id) {
                None => HttpLoadAction::Finish(Ok(None)),
                Some(n) => {
                    if is_playlist_identifier(n.as_str()) {
                        HttpLoadAction::FetchPlaylist(n)
                    } else {
                        HttpLoadAction::OpenRange(n)
                    }
                },
            },
        }
    }

    /// After the playlist fetch: a failure fails the load; an HLS playlist is a stream track;
    /// another playlist refers to its selected reference; no playlist opens a range input.
    pub fn after_playlist(
        &self,
        identifier: &str,
        outcome: Result<Option<PlaylistMatch>, PlaylistLoadError>,
    ) -> (action: HttpLoadAction)
        ensures
            match outcome {
                Err(_) => action matches HttpLoadAction::Finish(Err(SourceRegistryError::SourceFailure)),
                Ok(None) => action matches HttpLoadAction::OpenRange(u) && u@ == identifier@,
                Ok(Some(m)) => if m.format == PlaylistFormat::Hls {
                    action matches HttpLoadAction::Finish(Ok(Some(HttpSourceLoad::Item(t))))
                        && t.probe == MediaProbe::HlsOuter && t.info@ == spec_hls_track_info(
                        identifier@,
                        m@.title,
                    )
                } else {
                    action matches HttpLoadAction::Finish(Ok(Some(HttpSourceLoad::Referral(r))))
                        && r@ == m@.identifier
                },
            },
    {
        match outcome {
            Err(_) => HttpLoadAction::Finish(Err(SourceRegistryError::SourceFailure)),
            Ok(None) => HttpLoadAction::OpenRange(copy_text(identifier)),
            Ok(Some(m)) => {
                if m.format == PlaylistFormat::Hls {
                    let title = match m.reference.title {
                        Some(t) => t,
                        None => copy_text(identifier),
                    };
                    let info = TrackInfo {
                        title,
                        author: copy_text("Unknown artist"),
                        duration: Duration::zero(),
                        identifier: copy_text(identifier),
                        is_stream: true,
                        uri: Some(copy_text(identifier)),
                        artwork_url: None,
                        isrc: None,
                    };
                    HttpLoadAction::Finish(
                        Ok(Some(HttpSourceLoad::Item(MediaSourceTrack { info, probe: MediaProbe::HlsOuter }))),
                    )
                } else {
                    HttpLoadAction::Finish(Ok(Some(HttpSourceLoad::Referral(m.reference.identifier))))
                }
            },
        }
    }

    /// After the range input opened: a failure fails the load; a redirect to another URI refers
    /// to it; otherwise the media is probed with the identifier's extension as a hint.
    pub fn after_range_open(&self, identifier: &str, final_uri: Result<String, MediaError>) -> (action:
        HttpLoadAction)
        ensures
            match final_uri {
                Err(_) => action matches HttpLoadAction::Finish(Err(SourceRegistryError::SourceFailure)),
                Ok(f) => if f@ == identifier@ {
                    action matches HttpLoadAction::OpenMedia { identifier: u, extension: e } && u@
                        == identifier@ && crate::playlist::opt_string_seq(e) == spec_extension_hint(
                        identifier@,
                    )
                } else {
                    action matches HttpLoadAction::Finish(Ok(Some(HttpSourceLoad::Referral(r))))
                        && r@ == f@
                },
            },
    {
        match final_uri {
            Err(_) => HttpLoadAction::Finish(Err(SourceRegistryError::SourceFailure)),
            Ok(f) => {
                let a = chars_of(f.as_str());
                let b = chars_of(identifier);
                if seq_equal(a.as_slice(), b.as_slice()) {
                    HttpLoadAction::OpenMedia {
                        identifier: copy_text(identifier),
                        extension: extension_hint(identifier),
                    }
                } else {
                    HttpLoadAction::Finish(Ok(Some(HttpSourceLoad::Referral(f))))
                }
            },
        }
    }

    /// After the media probe: a failure fails the load; otherwise the track is described from
    /// the probed information and recorded with its container's probe.
    pub fn after_media_open(&self, identifier: &str, info: Result<MediaInfo, MediaError>) -> (action:
        HttpLoadAction)
        ensures
            match info {
                Err(_) => action matches HttpLoadAction::Finish(Err(SourceRegistryError::SourceFailure)),
                Ok(i) => action matches HttpLoadAction::Finish(Ok(Some(HttpSourceLoad::Item(t))))
                    && t.info@ == spec_make_track_info(identifier@, i, None) && t.probe
                    == spec_probe_of(i.container),
            },
    {
        match info {
            Err(_) => HttpLoadAction::Finish(Err(SourceRegistryError::SourceFailure)),
            Ok(i) => {
                let track = MediaSourceTrack {
                    info: make_track_info(identifier, &i, None),
                    probe: MediaProbe::from_container(i.container),
                };
                HttpLoadAction::Finish(Ok(Some(HttpSourceLoad::Item(track))))
            },
        }
    }

    /// The stored form of a track: its probe record.
    pub fn encode(&self, item: &MediaSourceTrack) -> (result: Result<Vec<u8>, SourceRegistryError>)
        ensures
            result matches Ok(v) && v@ == spec_encode_probe(item.probe),
    {
        encode_probe(item.probe)
    }

    /// A track rebuilt from its description and probe record.
    pub fn decode_with_info(&self, info: &TrackInfo, payload: &[u8]) -> (result: Result<
        MediaSourceTrack,
        SourceRegistryError,
    >)
        ensures
            match spec_decode_probe(payload@) {
                Ok(p) => result matches Ok(t) && t.probe == p && t.info@ == info@,
                Err(e) => result matches Err(r) && r == e,
            },
    {
        let probe = decode_probe(payload)?;
        Ok(MediaSourceTrack { info: info.duplicate(), probe })
    }
}

} // verus!
