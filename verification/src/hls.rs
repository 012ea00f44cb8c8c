use vstd::prelude::*;

use std::collections::VecDeque;

use crate::duration::{max_nanos, Duration};
use crate::media::MediaError;
use crate::playlist::{
    check_line_lengths, lines_after_first, resolve_http_reference, spec_resolve_http_reference,
    validate_line_lengths, PlaylistError, PlaylistLimits,
};
use crate::text::{
    all_digits, chars_of, copy_range, find_char, find_char_index, has_prefix, lemma_find_char,
    parse_digits_u64, parse_u64_digits, parse_u64_text, split_lines, split_once, split_once_chars,
    starts_with, std_parse_u64, string_from_chars, trim, trim_chars,
};

verus! {

/// Resource limits for one parsed HLS master or media playlist.
#[derive(Clone, Copy, Debug, PartialEq, Eq)]
pub struct HlsLimits {
    pub max_variants: usize,
    pub max_segments: usize,
    pub max_segment_duration: Duration,
    pub max_playlist_duration: Duration,
}

impl HlsLimits {
    pub fn default_limits() -> (limits: Self)
        ensures
            limits.max_variants == 64,
            limits.max_segments == 10_000,
            limits.max_segment_duration@ == 3600 * 1_000_000_000,
            limits.max_playlist_duration@ == 168 * 3600 * 1_000_000_000,
    {
        HlsLimits {
            max_variants: 64,
            max_segments: 10_000,
            max_segment_duration: Duration::from_hours(1),
            max_playlist_duration: Duration::from_hours(168),
        }
    }

    pub open spec fn spec_validate_error(self) -> Option<&'static str> {
        if self.max_variants == 0 {
            Some("max_variants must be non-zero")
        } else if self.max_segments == 0 {
            Some("max_segments must be non-zero")
        } else if self.max_segment_duration@ == 0 {
            Some("max_segment_duration must be non-zero")
        } else if self.max_playlist_duration@ == 0 {
            Some("max_playlist_duration must be non-zero")
        } else {
            None
        }
    }

    pub fn validate(self) -> (result: Result<Self, HlsError>)
        ensures
            match self.spec_validate_error() {
                Some(m) => result matches Err(HlsError::InvalidLimits(r)) && r == m,
                None => result matches Ok(l) && l == self,
            },
    {
        if self.max_variants == 0 {
            return Err(HlsError::InvalidLimits("max_variants must be non-zero"));
        }
        if self.max_segments == 0 {
            return Err(HlsError::InvalidLimits("max_segments must be non-zero"));
        }
        if self.max_segment_duration.is_zero() {
            return Err(HlsError::InvalidLimits("max_segment_duration must be non-zero"));
        }
        if self.max_playlist_duration.is_zero() {
            return Err(HlsError::InvalidLimits("max_playlist_duration must be non-zero"));
        }
        Ok(self)
    }
}

#[derive(Clone, Debug, PartialEq, Eq)]
pub struct HlsVariant {
    pub uri: String,
    pub bandwidth: Option<u64>,
}

#[derive(Clone, Debug, PartialEq, Eq)]
pub struct HlsMasterPlaylist {
    pub variants: Vec<HlsVariant>,
}

pub struct VariantView {
    pub uri: Seq<char>,
    pub bandwidth: Option<u64>,
}

impl View for HlsVariant {
    type V = VariantView;

    open spec fn view(&self) -> VariantView {
        VariantView { uri: self.uri@, bandwidth: self.bandwidth }
    }
}

pub open spec fn variants_view(v: Seq<HlsVariant>) -> Seq<VariantView> {
    v.map_values(|x: HlsVariant| x@)
}

impl HlsMasterPlaylist {
    /// The first variant, which is the one played.
    pub fn selected_variant(&self) -> (variant: Option<&HlsVariant>)
        ensures
            self.variants@.len() == 0 ==> variant is None,
            self.variants@.len() > 0 ==> variant == Some(&self.variants@[0]),
    {
        if self.variants.len() == 0 {
            None
        } else {
            Some(&self.variants[0])
        }
    }
}

#[derive(Clone, Debug, PartialEq, Eq)]
pub struct HlsSegment {
    pub sequence: u64,
    pub uri: String,
    pub duration: Option<Duration>,
    pub title: Option<String>,
    pub discontinuity: bool,
}

pub struct SegmentView {
    pub sequence: u64,
    pub uri: Seq<char>,
    pub duration: Option<int>,
    pub title: Option<Seq<char>>,
    pub discontinuity: bool,
}

pub open spec fn opt_duration_view(d: Option<Duration>) -> Option<int> {
    match d {
        Some(x) => Some(x@),
        None => None,
    }
}

impl View for HlsSegment {
    type V = SegmentView;

    open spec fn view(&self) -> SegmentView {
        SegmentView {
            sequence: self.sequence,
            uri: self.uri@,
            duration: opt_duration_view(self.duration),
            title: crate::playlist::opt_string_seq(self.title),
            discontinuity: self.discontinuity,
        }
    }
}

pub open spec fn segments_view(v: Seq<HlsSegment>) -> Seq<SegmentView> {
    v.map_values(|x: HlsSegment| x@)
}

#[derive(Clone, Debug, PartialEq, Eq)]
pub struct HlsMediaPlaylist {
    pub media_sequence: u64,
    pub target_duration: Option<Duration>,
    pub end_list: bool,
    pub segments: Vec<HlsSegment>,
}

pub struct MediaView {
    pub media_sequence: u64,
    pub target_duration: Option<int>,
    pub end_list: bool,
    pub segments: Seq<SegmentView>,
}

impl View for HlsMediaPlaylist {
    type V = MediaView;

    open spec fn view(&self) -> MediaView {
        MediaView {
            media_sequence: self.media_sequence,
            target_duration: opt_duration_view(self.target_duration),
            end_list: self.end_list,
            segments: segments_view(self.segments@),
        }
    }
}

#[derive(Clone, Debug, PartialEq, Eq)]
pub enum HlsPlaylist {
    Master(HlsMasterPlaylist),
    Media(HlsMediaPlaylist),
}

pub enum PlaylistView {
    Master(Seq<VariantView>),
    Media(MediaView),
}

impl View for HlsPlaylist {
    type V = PlaylistView;

    open spec fn view(&self) -> PlaylistView {
        match self {
            HlsPlaylist::Master(m) => PlaylistView::Master(variants_view(m.variants@)),
            HlsPlaylist::Media(m) => PlaylistView::Media(m@),
        }
    }
}

#[derive(Debug)]
pub enum HlsError {
    InvalidLimits(&'static str),
    InvalidPlaylist(&'static str),
    TooManyVariants { limit: usize },
    TooManySegments { limit: usize },
    SegmentDurationExceeded { actual: Duration, limit: Duration },
    PlaylistDurationExceeded { actual: Duration, limit: Duration },
    UnsupportedFeature(&'static str),
    LiveReloadLimitExceeded { limit: usize },
    NotVod,
    Media(MediaError),
    Playlist(PlaylistError),
}

impl From<crate::playlist::PlaylistLoadError> for HlsError {
    /// A failed playlist load keeps its cause: a fetch failure or a refused playlist.
    fn from(error: crate::playlist::PlaylistLoadError) -> (converted: Self) {
        match error {
            crate::playlist::PlaylistLoadError::Media(e) => HlsError::Media(e),
            crate::playlist::PlaylistLoadError::Playlist(e) => HlsError::Playlist(e),
        }
    }
}

impl vstd::std_specs::convert::FromSpecImpl<crate::playlist::PlaylistLoadError> for HlsError {
    open spec fn obeys_from_spec() -> bool {
        true
    }

    open spec fn from_spec(error: crate::playlist::PlaylistLoadError) -> Self {
        match error {
            crate::playlist::PlaylistLoadError::Media(e) => HlsError::Media(e),
            crate::playlist::PlaylistLoadError::Playlist(e) => HlsError::Playlist(e),
        }
    }
}

/// The abstract form of the errors that parsing reports.
pub enum HlsErrorView {
    InvalidLimits(&'static str),
    InvalidPlaylist(&'static str),
    TooManyVariants { limit: usize },
    TooManySegments { limit: usize },
    SegmentDurationExceeded { actual: int, limit: int },
    PlaylistDurationExceeded { actual: int, limit: int },
    UnsupportedFeature(&'static str),
    LiveReloadLimitExceeded { limit: usize },
    NotVod,
    Media(MediaError),
    Playlist(PlaylistError),
}

impl View for HlsError {
    type V = HlsErrorView;

    open spec fn view(&self) -> HlsErrorView {
        match self {
            HlsError::InvalidLimits(m) => HlsErrorView::InvalidLimits(*m),
            HlsError::InvalidPlaylist(m) => HlsErrorView::InvalidPlaylist(*m),
            HlsError::TooManyVariants { limit } => HlsErrorView::TooManyVariants { limit: *limit },
            HlsError::TooManySegments { limit } => HlsErrorView::TooManySegments { limit: *limit },
            HlsError::SegmentDurationExceeded { actual, limit } => {
                HlsErrorView::SegmentDurationExceeded { actual: actual@, limit: limit@ }
            },
            HlsError::PlaylistDurationExceeded { actual, limit } => {
                HlsErrorView::PlaylistDurationExceeded { actual: actual@, limit: limit@ }
            },
            HlsError::UnsupportedFeature(m) => HlsErrorView::UnsupportedFeature(*m),
            HlsError::LiveReloadLimitExceeded { limit } => HlsErrorView::LiveReloadLimitExceeded {
                limit: *limit,
            },
            HlsError::NotVod => HlsErrorView::NotVod,
            HlsError::Media(e) => HlsErrorView::Media(*e),
            HlsError::Playlist(e) => HlsErrorView::Playlist(*e),
        }
    }
}

// ---------------------------------------------------------------------------------------------
// Small parsers
// ---------------------------------------------------------------------------------------------

/// A decimal attribute: only ASCII digits, and a value that fits.
pub open spec fn spec_parse_u64(value: Seq<char>, message: &'static str) -> Result<u64, HlsErrorView> {
    if value.len() == 0 || !all_digits(value) {
        Err(HlsErrorView::InvalidPlaylist(message))
    } else {
        match parse_digits_u64(value) {
            Some(v) => Ok(v),
            None => Err(HlsErrorView::InvalidPlaylist(message)),
        }
    }
}

pub fn parse_u64(value: &[char], message: &'static str) -> (result: Result<u64, HlsError>)
    ensures
        match spec_parse_u64(value@, message) {
            Ok(v) => result == Ok::<u64, HlsError>(v),
            Err(e) => result matches Err(r) && r@ == e,
        },
{
    match parse_u64_digits(value) {
        Some(v) => Ok(v),
        None => Err(HlsError::InvalidPlaylist(message)),
    }
}

/// Milliseconds of a fraction: its first three digits, each scaled by its decimal place.
pub open spec fn fraction_millis(fraction: Seq<char>) -> int {
    (if fraction.len() > 0 {
        crate::text::digit_value(fraction[0]) * 100
    } else {
        0
    }) + (if fraction.len() > 1 {
        crate::text::digit_value(fraction[1]) * 10
    } else {
        0
    }) + (if fraction.len() > 2 {
        crate::text::digit_value(fraction[2]) as int
    } else {
        0
    })
}

/// An `#EXTINF` duration in whole milliseconds; digits after the third decimal are ignored.
pub open spec fn spec_decimal_millis(value: Seq<char>) -> Result<u64, HlsErrorView> {
    let (seconds, fraction) = match split_once(value, '.') {
        Some((s, f)) => (s, f),
        None => (value, Seq::empty()),
    };
    if seconds.len() == 0 || !all_digits(seconds) || !all_digits(fraction) {
        Err(HlsErrorView::InvalidPlaylist("invalid segment duration"))
    } else {
        match parse_digits_u64(seconds) {
            None => Err(HlsErrorView::InvalidPlaylist("invalid segment duration")),
            Some(s) => if s * 1000 + fraction_millis(fraction) > u64::MAX {
                Err(HlsErrorView::InvalidPlaylist("segment duration overflow"))
            } else {
                Ok((s * 1000 + fraction_millis(fraction)) as u64)
            },
        }
    }
}

fn digits_only(s: &[char]) -> (result: bool)
    ensures
        result == all_digits(s@),
{
    let mut i: usize = 0;
    while i < s.len()
        invariant
            i <= s@.len(),
            forall|j: int| 0 <= j < i ==> crate::text::is_digit(#[trigger] s@[j]),
        decreases s@.len() - i,
    {
        if !('0' <= s[i] && s[i] <= '9') {
            return false;
        }
        i = i + 1;
    }
    true
}

pub fn parse_decimal_millis(value: &[char]) -> (result: Result<Duration, HlsError>)
    ensures
        match spec_decimal_millis(value@) {
            Ok(ms) => result matches Ok(d) && d@ == ms * 1_000_000,
            Err(e) => result matches Err(r) && r@ == e,
        },
{
    let (seconds, fraction) = match split_once_chars(value, '.') {
        Some((s, f)) => (s, f),
        None => (copy_range(value, 0, value.len()), Vec::new()),
    };
    proof {
        assert(value@.subrange(0, value@.len() as int) =~= value@);
    }
    if seconds.len() == 0 || !digits_only(seconds.as_slice()) || !digits_only(fraction.as_slice()) {
        return Err(HlsError::InvalidPlaylist("invalid segment duration"));
    }
    let secs = match parse_u64_digits(seconds.as_slice()) {
        Some(s) => s,
        None => {
            return Err(HlsError::InvalidPlaylist("invalid segment duration"));
        },
    };
    let mut millis: u64 = 0;
    if fraction.len() > 0 {
        millis = millis + (fraction[0] as u32 - '0' as u32) as u64 * 100;
    }
    if fraction.len() > 1 {
        millis = millis + (fraction[1] as u32 - '0' as u32) as u64 * 10;
    }
    if fraction.len() > 2 {
        millis = millis + (fraction[2] as u32 - '0' as u32) as u64;
    }
    assert(millis == fraction_millis(fraction@));
    if secs > 18_446_744_073_709_551 || (secs == 18_446_744_073_709_551 && millis > 615) {
        return Err(HlsError::InvalidPlaylist("segment duration overflow"));
    }
    Ok(Duration::from_millis(secs * 1000 + millis))
}

/// The value of a named attribute in an attribute list, quoted or not.
pub open spec fn attr_value(rem: Seq<char>, wanted: Seq<char>) -> Option<Seq<char>>
    decreases rem.len(),
{
    if rem.len() == 0 {
        None
    } else {
        match split_once(rem, '=') {
            None => None,
            Some((name, after)) => {
                let parsed: Option<(Seq<char>, Seq<char>)> = if has_prefix(after, "\""@) {
                    let quoted = after.skip(1);
                    match find_char(quoted, '"') {
                        None => None,
                        Some(end) => Some(
                            (
                                quoted.take(end),
                                if has_prefix(quoted.skip(end + 1), ","@) {
                                    quoted.skip(end + 2)
                                } else {
                                    Seq::empty()
                                },
                            ),
                        ),
                    }
                } else {
                    match split_once(after, ',') {
                        Some((v, r)) => Some((v, r)),
                        None => Some((after, Seq::empty())),
                    }
                };
                match parsed {
                    None => None,
                    Some((value, rest)) => if name == wanted {
                        Some(value)
                    } else if rest.len() < rem.len() {
                        attr_value(rest, wanted)
                    } else {
                        None
                    },
                }
            },
        }
    }
}

/// One attribute of an attribute list: its name, its value, and whether the value is quoted.
pub struct Attribute {
    pub name: Seq<char>,
    pub value: Seq<char>,
    pub quoted: bool,
}

/// An attribute as written: `NAME=value` or `NAME="value"`.
pub open spec fn attribute_text(a: Attribute) -> Seq<char> {
    a.name + seq!['='] + if a.quoted {
        seq!['"'] + a.value + seq!['"']
    } else {
        a.value
    }
}

/// Attributes written one after another, separated by commas.
pub open spec fn attribute_list_text(attributes: Seq<Attribute>) -> Seq<char>
    decreases attributes.len(),
{
    if attributes.len() == 0 {
        Seq::empty()
    } else if attributes.len() == 1 {
        attribute_text(attributes[0])
    } else {
        attribute_text(attributes[0]) + seq![','] + attribute_list_text(attributes.drop_first())
    }
}

/// A writable attribute: its name has no `=`; a quoted value has no `"`; an unquoted value has no
/// `,` and does not start with `"`.
pub open spec fn attribute_writable(a: Attribute) -> bool {
    &&& forall|i: int| 0 <= i < a.name.len() ==> a.name[i] != '='
    &&& if a.quoted {
        forall|i: int| 0 <= i < a.value.len() ==> a.value[i] != '"'
    } else {
        (forall|i: int| 0 <= i < a.value.len() ==> a.value[i] != ',') && (a.value.len() > 0
            ==> a.value[0] != '"')
    }
}

/// The value of the first attribute with the given name.
pub open spec fn first_attribute_value(attributes: Seq<Attribute>, wanted: Seq<char>) -> Option<
    Seq<char>,
>
    decreases attributes.len(),
{
    if attributes.len() == 0 {
        None
    } else if attributes[0].name == wanted {
        Some(attributes[0].value)
    } else {
        first_attribute_value(attributes.drop_first(), wanted)
    }
}

proof fn lemma_find_first(s: Seq<char>, c: char, i: int)
    requires
        0 <= i < s.len(),
        s[i] == c,
        forall|j: int| 0 <= j < i ==> s[j] != c,
    ensures
        find_char(s, c) == Some(i),
{
    lemma_find_char(s, c);
}

proof fn lemma_find_none(s: Seq<char>, c: char)
    requires
        forall|j: int| 0 <= j < s.len() ==> s[j] != c,
    ensures
        find_char(s, c) is None,
{
    lemma_find_char(s, c);
    if find_char(s, c) is Some {
        let i = find_char(s, c)->0;
        assert(s[i] == c);
    }
}

/// Looking a name up in a written attribute list gives the value of the first attribute with
/// that name, quoted or not, and nothing when no attribute has it; so in `A=1,B=2` the value of
/// `A` is `1` and that of `B` is `2`.
pub proof fn law_attribute_lookup_finds_written_value(attributes: Seq<Attribute>, wanted: Seq<char>)
    requires
        forall|k: int| 0 <= k < attributes.len() ==> attribute_writable(#[trigger] attributes[k]),
    ensures
        attr_value(attribute_list_text(attributes), wanted) == first_attribute_value(
            attributes,
            wanted,
        ),
    decreases attributes.len(),
{
    reveal_strlit("\"");
    reveal_strlit(",");
    if attributes.len() > 0 {
        let a = attributes[0];
        let rest = attributes.drop_first();
        assert forall|k: int| 0 <= k < rest.len() implies attribute_writable(#[trigger] rest[k]) by {
            assert(rest[k] == attributes[k + 1]);
        }
        law_attribute_lookup_finds_written_value(rest, wanted);
        assert(attribute_writable(a));
        let tail: Seq<char> = if attributes.len() == 1 {
            Seq::empty()
        } else {
            seq![','] + attribute_list_text(rest)
        };
        let rest_text: Seq<char> = if attributes.len() == 1 {
            Seq::empty()
        } else {
            attribute_list_text(rest)
        };
        if attributes.len() == 1 {
            assert(rest.len() == 0);
            assert(attribute_list_text(rest) == Seq::<char>::empty());
        }
        let text = attribute_list_text(attributes);
        assert(text =~= attribute_text(a) + tail);
        let body: Seq<char> = if a.quoted {
            seq!['"'] + a.value + seq!['"']
        } else {
            a.value
        };
        let after = body + tail;
        assert(text =~= a.name + seq!['='] + after);
        lemma_find_first(text, '=', a.name.len() as int);
        assert(text.take(a.name.len() as int) =~= a.name);
        assert(text.skip(a.name.len() as int + 1) =~= after);
        assert(text.len() > 0);
        if a.quoted {
            assert(has_prefix(after, "\""@)) by {
                reveal_strlit("\"");
                assert("\""@ =~= seq!['"']);
                assert(after.take(1) =~= seq!['"']);
            }
            let quoted = after.skip(1);
            assert(quoted =~= a.value + seq!['"'] + tail);
            lemma_find_first(quoted, '"', a.value.len() as int);
            assert(quoted.take(a.value.len() as int) =~= a.value);
            assert(quoted.skip(a.value.len() as int + 1) =~= tail);
            if attributes.len() == 1 {
                assert(!has_prefix(tail, ","@));
            } else {
                assert(has_prefix(tail, ","@)) by {
                    reveal_strlit(",");
                    assert(","@ =~= seq![',']);
                    assert(tail.take(1) =~= seq![',']);
                }
                assert(quoted.skip(a.value.len() as int + 2) =~= rest_text);
            }
        } else {
            assert(!has_prefix(after, "\""@)) by {
                if after.len() >= 1 {
                    if a.value.len() > 0 {
                        assert(after[0] == a.value[0]);
                    } else {
                        assert(after[0] == ',');
                    }
                    assert(after.take(1)[0] == after[0]);
                }
            }
            if attributes.len() == 1 {
                assert(after =~= a.value);
                lemma_find_none(after, ',');
            } else {
                lemma_find_first(after, ',', a.value.len() as int);
                assert(after.take(a.value.len() as int) =~= a.value);
                assert(after.skip(a.value.len() as int + 1) =~= rest_text);
            }
        }
        assert(rest_text.len() < text.len());
    }
}

pub fn attribute_value(attributes: &[char], wanted: &[char]) -> (result: Option<Vec<char>>)
    ensures
        crate::uri::opt_chars_view(result) == attr_value(attributes@, wanted@),
{
    let mut remaining = copy_range(attributes, 0, attributes.len());
    proof {
        assert(remaining@ =~= attributes@);
    }
    let quote = chars_of("\"");
    let comma = chars_of(",");
    proof {
        reveal_strlit("\"");
        reveal_strlit(",");
    }
    while remaining.len() > 0
        invariant
            quote@ == "\""@,
            comma@ == ","@,
            quote@ == seq!['"'],
            comma@ == seq![','],
            attr_value(attributes@, wanted@) == attr_value(remaining@, wanted@),
        decreases remaining@.len(),
    {
        let (name, after) = match split_once_chars(remaining.as_slice(), '=') {
            Some(p) => p,
            None => {
                return None;
            },
        };
        proof {
            lemma_find_char(remaining@, '=');
        }
        let value: Vec<char>;
        let rest: Vec<char>;
        if starts_with(after.as_slice(), quote.as_slice()) {
            let quoted = copy_range(after.as_slice(), 1, after.len());
            proof {
                assert(quoted@ =~= after@.skip(1));
                lemma_find_char(quoted@, '"');
            }
            let end = match find_char_index(quoted.as_slice(), '"') {
                Some(e) => e,
                None => {
                    return None;
                },
            };
            value = copy_range(quoted.as_slice(), 0, end);
            let tail = copy_range(quoted.as_slice(), end + 1, quoted.len());
            proof {
                assert(tail@ =~= quoted@.skip(end + 1));
            }
            if starts_with(tail.as_slice(), comma.as_slice()) {
                rest = copy_range(tail.as_slice(), 1, tail.len());
                proof {
                    assert(rest@ =~= quoted@.skip(end + 2));
                }
            } else {
                rest = Vec::new();
            }
        } else {
            match split_once_chars(after.as_slice(), ',') {
                Some((v, r)) => {
                    value = v;
                    rest = r;
                },
                None => {
                    value = copy_range(after.as_slice(), 0, after.len());
                    rest = Vec::new();
                    proof {
                        assert(value@ =~= after@);
                    }
                },
            }
        }
        if crate::playlist::seq_equal(name.as_slice(), wanted) {
            return Some(value);
        }
        if rest.len() >= remaining.len() {
            return None;
        }
        remaining = rest;
    }
    None
}

/// Counts one data line against the entry limit.
pub fn count_data_line(count: &mut usize, limit: usize) -> (result: Result<(), HlsError>)
    requires
        *old(count) <= limit,
    ensures
        *old(count) == limit ==> (result matches Err(HlsError::Playlist(e)) && e
            == (PlaylistError::TooManyEntries { limit })),
        *old(count) != limit ==> result is Ok && *final(count) == *old(count) + 1,
{
    if *count == limit {
        return Err(HlsError::Playlist(PlaylistError::TooManyEntries { limit }));
    }
    *count = *count + 1;
    Ok(())
}

/// The first unsupported feature in the lines: encryption other than `METHOD=NONE`,
/// initialization maps, or byte ranges.
pub open spec fn unsupported_feature(lines: Seq<Seq<char>>) -> Option<&'static str>
    decreases lines.len(),
{
    if lines.len() == 0 {
        None
    } else {
        let line = trim(lines[0]);
        if has_prefix(line, "#EXT-X-KEY:"@) && attr_value(
            line.skip("#EXT-X-KEY:"@.len() as int),
            "METHOD"@,
        ) != Some("NONE"@) {
            Some("encryption")
        } else if has_prefix(line, "#EXT-X-MAP:"@) {
            Some("initialization maps")
        } else if has_prefix(line, "#EXT-X-BYTERANGE:"@) {
            Some("byte ranges")
        } else {
            unsupported_feature(lines.skip(1))
        }
    }
}

pub fn reject_unsupported_features(text: &[char]) -> (result: Result<(), HlsError>)
    ensures
        match unsupported_feature(crate::text::lines(text@)) {
            Some(f) => result matches Err(HlsError::UnsupportedFeature(r)) && r == f,
            None => result is Ok,
        },
{
    let lines = split_lines(text);
    let ghost all = crate::text::char_seqs(lines@);
    let key = chars_of("#EXT-X-KEY:");
    let map = chars_of("#EXT-X-MAP:");
    let byterange = chars_of("#EXT-X-BYTERANGE:");
    let method = chars_of("METHOD");
    let none = chars_of("NONE");
    let mut i: usize = 0;
    proof {
        assert(all.skip(0) =~= all);
    }
    while i < lines.len()
        invariant
            i <= lines@.len(),
            all == crate::text::char_seqs(lines@),
            all == crate::text::lines(text@),
            key@ == "#EXT-X-KEY:"@,
            map@ == "#EXT-X-MAP:"@,
            byterange@ == "#EXT-X-BYTERANGE:"@,
            method@ == "METHOD"@,
            none@ == "NONE"@,
            unsupported_feature(all) == unsupported_feature(all.skip(i as int)),
        decreases lines@.len() - i,
    {
        proof {
            assert(all.skip(i as int)[0] == all[i as int]);
            assert(all.skip(i as int).skip(1) =~= all.skip(i + 1));
        }
        let line = trim_chars(lines[i].as_slice());
        if starts_with(line.as_slice(), key.as_slice()) {
            let attributes = copy_range(line.as_slice(), key.len(), line.len());
            proof {
                assert(attributes@ =~= line@.skip("#EXT-X-KEY:"@.len() as int));
            }
            let encrypted = match attribute_value(attributes.as_slice(), method.as_slice()) {
                Some(m) => !crate::playlist::seq_equal(m.as_slice(), none.as_slice()),
                None => true,
            };
            if encrypted {
                return Err(HlsError::UnsupportedFeature("encryption"));
            }
        }
        if starts_with(line.as_slice(), map.as_slice()) {
            return Err(HlsError::UnsupportedFeature("initialization maps"));
        }
        if starts_with(line.as_slice(), byterange.as_slice()) {
            return Err(HlsError::UnsupportedFeature("byte ranges"));
        }
        i = i + 1;
    }
    proof {
        assert(all.skip(i as int) =~= Seq::<Seq<char>>::empty());
    }
    Ok(())
}

} // verus!

verus! {

// ---------------------------------------------------------------------------------------------
// Master playlists
// ---------------------------------------------------------------------------------------------

/// Scan state of a master playlist.
pub struct MasterState {
    pub variants: Seq<VariantView>,
    pub pending: Option<Option<u64>>,
    pub data_lines: int,
}

pub open spec fn master_step(
    s: MasterState,
    raw: Seq<char>,
    base: Seq<char>,
    pl: PlaylistLimits,
    hl: HlsLimits,
) -> Result<MasterState, HlsErrorView> {
    let line = trim(raw);
    if has_prefix(line, "#EXT-X-STREAM-INF:"@) {
        let attributes = line.skip("#EXT-X-STREAM-INF:"@.len() as int);
        Ok(
            MasterState {
                pending: Some(
                    match attr_value(attributes, "BANDWIDTH"@) {
                        Some(v) => std_parse_u64(v),
                        None => None,
                    },
                ),
                ..s
            },
        )
    } else if line.len() > 0 && !has_prefix(line, "#"@) {
        if s.data_lines == pl.max_entries {
            Err(HlsErrorView::Playlist(PlaylistError::TooManyEntries { limit: pl.max_entries }))
        } else {
            match s.pending {
                None => Ok(MasterState { data_lines: s.data_lines + 1, ..s }),
                Some(bandwidth) => if s.variants.len() == hl.max_variants {
                    Err(HlsErrorView::TooManyVariants { limit: hl.max_variants })
                } else {
                    match spec_resolve_http_reference(base, line) {
                        Err(e) => Err(HlsErrorView::Playlist(e)),
                        Ok(uri) => Ok(
                            MasterState {
                                variants: s.variants.push(VariantView { uri, bandwidth }),
                                pending: None,
                                data_lines: s.data_lines + 1,
                            },
                        ),
                    }
                },
            }
        }
    } else {
        Ok(s)
    }
}

pub open spec fn master_fold(
    s: MasterState,
    lines: Seq<Seq<char>>,
    base: Seq<char>,
    pl: PlaylistLimits,
    hl: HlsLimits,
) -> Result<MasterState, HlsErrorView>
    decreases lines.len(),
{
    if lines.len() == 0 {
        Ok(s)
    } else {
        match master_step(s, lines[0], base, pl, hl) {
            Err(e) => Err(e),
            Ok(s2) => master_fold(s2, lines.skip(1), base, pl, hl),
        }
    }
}

pub open spec fn spec_parse_master(text: Seq<char>, base: Seq<char>, pl: PlaylistLimits, hl: HlsLimits) -> Result<
    Seq<VariantView>,
    HlsErrorView,
> {
    match master_fold(
        MasterState { variants: Seq::empty(), pending: None, data_lines: 0 },
        lines_after_first(text),
        base,
        pl,
        hl,
    ) {
        Err(e) => Err(e),
        Ok(s) => if s.pending is Some {
            Err(HlsErrorView::InvalidPlaylist("variant URI is missing"))
        } else if s.variants.len() == 0 {
            Err(HlsErrorView::InvalidPlaylist("master playlist has no variants"))
        } else {
            Ok(s.variants)
        },
    }
}

fn resolve_reference(base: &[char], line: &[char]) -> (result: Result<String, HlsError>)
    ensures
        match spec_resolve_http_reference(base@, line@) {
            Ok(t) => result matches Ok(s) && s@ == t,
            Err(e) => result matches Err(r) && r@ == HlsErrorView::Playlist(e),
        },
{
    let base_text = string_from_chars(base);
    let line_text = string_from_chars(line);
    match resolve_http_reference(base_text.as_str(), line_text.as_str()) {
        Ok(s) => Ok(s),
        Err(e) => Err(HlsError::Playlist(e)),
    }
}

#[verifier::rlimit(60)]
fn master_line(
    variants: &mut Vec<HlsVariant>,
    pending: &mut Option<Option<u64>>,
    data_lines: &mut usize,
    raw: &[char],
    base: &[char],
    pl: PlaylistLimits,
    hl: HlsLimits,
) -> (result: Result<(), HlsError>)
    requires
        *old(data_lines) <= pl.max_entries,
        old(variants)@.len() <= hl.max_variants,
    ensures
        match master_step(
            MasterState {
                variants: variants_view(old(variants)@),
                pending: *old(pending),
                data_lines: *old(data_lines) as int,
            },
            raw@,
            base@,
            pl,
            hl,
        ) {
            Ok(s) => result is Ok && s == (MasterState {
                variants: variants_view(final(variants)@),
                pending: *final(pending),
                data_lines: *final(data_lines) as int,
            }) && *final(data_lines) <= pl.max_entries && final(variants)@.len() <= hl.max_variants,
            Err(e) => result matches Err(r) && r@ == e,
        },
{
    let line = trim_chars(raw);
    let stream_inf = chars_of("#EXT-X-STREAM-INF:");
    let hash = chars_of("#");
    if starts_with(line.as_slice(), stream_inf.as_slice()) {
        let attributes = copy_range(line.as_slice(), stream_inf.len(), line.len());
        let bandwidth_name = chars_of("BANDWIDTH");
        let bandwidth = match attribute_value(attributes.as_slice(), bandwidth_name.as_slice()) {
            Some(v) => parse_u64_text(v.as_slice()),
            None => None,
        };
        proof {
            assert(attributes@ =~= line@.skip("#EXT-X-STREAM-INF:"@.len() as int));
        }
        *pending = Some(bandwidth);
        return Ok(());
    }
    if line.len() > 0 && !starts_with(line.as_slice(), hash.as_slice()) {
        count_data_line(data_lines, pl.max_entries)?;
        match *pending {
            None => {},
            Some(bandwidth) => {
                if variants.len() == hl.max_variants {
                    return Err(HlsError::TooManyVariants { limit: hl.max_variants });
                }
                let uri = resolve_reference(base, line.as_slice())?;
                let ghost before = variants_view(variants@);
                let variant = HlsVariant { uri, bandwidth };
                variants.push(variant);
                *pending = None;
                proof {
                    assert(variants_view(variants@) =~= before.push(variant@));
                }
            },
        }
    }
    Ok(())
}

fn parse_master(text: &[char], base: &[char], pl: PlaylistLimits, hl: HlsLimits) -> (result: Result<
    HlsMasterPlaylist,
    HlsError,
>)
    ensures
        match spec_parse_master(text@, base@, pl, hl) {
            Ok(v) => result matches Ok(m) && variants_view(m.variants@) == v,
            Err(e) => result matches Err(r) && r@ == e,
        },
{
    let lines = split_lines(text);
    let mut variants: Vec<HlsVariant> = Vec::new();
    let mut pending: Option<Option<u64>> = None;
    let mut data_lines: usize = 0;
    proof {
        assert(variants_view(variants@) =~= Seq::<VariantView>::empty());
    }
    if lines.len() > 0 {
        let ghost all = crate::text::char_seqs(lines@).skip(1);
        let mut i: usize = 1;
        proof {
            assert(all.skip(0) =~= all);
        }
        while i < lines.len()
            invariant
                1 <= i <= lines@.len(),
                all == crate::text::char_seqs(lines@).skip(1),
                all == lines_after_first(text@),
                data_lines <= pl.max_entries,
                variants@.len() <= hl.max_variants,
                master_fold(
                    MasterState { variants: Seq::empty(), pending: None, data_lines: 0 },
                    all,
                    base@,
                    pl,
                    hl,
                ) == master_fold(
                    MasterState {
                        variants: variants_view(variants@),
                        pending,
                        data_lines: data_lines as int,
                    },
                    all.skip(i - 1),
                    base@,
                    pl,
                    hl,
                ),
            decreases lines@.len() - i,
        {
            proof {
                assert(all.skip(i - 1)[0] == crate::text::char_seqs(lines@)[i as int]);
                assert(all.skip(i - 1).skip(1) =~= all.skip(i as int));
            }
            master_line(
                &mut variants,
                &mut pending,
                &mut data_lines,
                lines[i].as_slice(),
                base,
                pl,
                hl,
            )?;
            i = i + 1;
        }
        proof {
            assert(all.skip(i - 1) =~= Seq::<Seq<char>>::empty());
        }
    }
    if pending.is_some() {
        return Err(HlsError::InvalidPlaylist("variant URI is missing"));
    }
    if variants.len() == 0 {
        return Err(HlsError::InvalidPlaylist("master playlist has no variants"));
    }
    Ok(HlsMasterPlaylist { variants })
}

} // verus!

verus! {

// ---------------------------------------------------------------------------------------------
// Media playlists
// ---------------------------------------------------------------------------------------------

/// `#EXTINF:<duration>,<title>`: without a comma neither is known.
pub open spec fn spec_segment_info(value: Seq<char>, hl: HlsLimits) -> Result<
    (Option<int>, Option<Seq<char>>),
    HlsErrorView,
> {
    match split_once(value, ',') {
        None => Ok((None, None)),
        Some((duration, title)) => match spec_decimal_millis(duration) {
            Err(e) => Err(e),
            Ok(ms) => if ms * 1_000_000 > hl.max_segment_duration@ {
                Err(
                    HlsErrorView::SegmentDurationExceeded {
                        actual: ms * 1_000_000,
                        limit: hl.max_segment_duration@,
                    },
                )
            } else {
                Ok((Some(ms * 1_000_000), Some(title)))
            },
        },
    }
}

pub fn parse_segment_info(value: &[char], hl: HlsLimits) -> (result: Result<
    (Option<Duration>, Option<String>),
    HlsError,
>)
    ensures
        match spec_segment_info(value@, hl) {
            Ok((d, t)) => result matches Ok((rd, rt)) && opt_duration_view(rd) == d
                && crate::playlist::opt_string_seq(rt) == t,
            Err(e) => result matches Err(r) && r@ == e,
        },
{
    let (duration, title) = match split_once_chars(value, ',') {
        Some(p) => p,
        None => {
            return Ok((None, None));
        },
    };
    let d = parse_decimal_millis(duration.as_slice())?;
    if hl.max_segment_duration.less_than(&d) {
        return Err(HlsError::SegmentDurationExceeded { actual: d, limit: hl.max_segment_duration });
    }
    Ok((Some(d), Some(string_from_chars(title.as_slice()))))
}

/// Scan state of a media playlist.
pub struct MediaState {
    pub media_sequence: u64,
    pub target: Option<int>,
    pub end_list: bool,
    pub segments: Seq<SegmentView>,
    pub pending_info: Option<(Option<int>, Option<Seq<char>>)>,
    pub pending_discontinuity: bool,
    pub total: int,
    pub data_lines: int,
}

pub open spec fn media_data_line(
    s: MediaState,
    line: Seq<char>,
    base: Seq<char>,
    pl: PlaylistLimits,
    hl: HlsLimits,
) -> Result<MediaState, HlsErrorView> {
    if s.data_lines == pl.max_entries {
        Err(HlsErrorView::Playlist(PlaylistError::TooManyEntries { limit: pl.max_entries }))
    } else if s.segments.len() == hl.max_segments {
        Err(HlsErrorView::TooManySegments { limit: hl.max_segments })
    } else if s.media_sequence + s.segments.len() > u64::MAX {
        Err(HlsErrorView::InvalidPlaylist("segment sequence overflow"))
    } else {
        let (duration, title) = match s.pending_info {
            Some(info) => info,
            None => (None, None),
        };
        let total = match duration {
            Some(d) => s.total + d,
            None => s.total,
        };
        if duration is Some && total > max_nanos() {
            Err(
                HlsErrorView::PlaylistDurationExceeded {
                    actual: max_nanos(),
                    limit: hl.max_playlist_duration@,
                },
            )
        } else if duration is Some && total > hl.max_playlist_duration@ {
            Err(
                HlsErrorView::PlaylistDurationExceeded {
                    actual: total,
                    limit: hl.max_playlist_duration@,
                },
            )
        } else {
            match spec_resolve_http_reference(base, line) {
                Err(e) => Err(HlsErrorView::Playlist(e)),
                Ok(uri) => Ok(
                    MediaState {
                        segments: s.segments.push(
                            SegmentView {
                                sequence: (s.media_sequence + s.segments.len()) as u64,
                                uri,
                                duration,
                                title,
                                discontinuity: s.pending_discontinuity,
                            },
                        ),
                        pending_info: None,
                        pending_discontinuity: false,
                        total,
                        data_lines: s.data_lines + 1,
                        ..s
                    },
                ),
            }
        }
    }
}

pub open spec fn media_step(
    s: MediaState,
    raw: Seq<char>,
    base: Seq<char>,
    pl: PlaylistLimits,
    hl: HlsLimits,
) -> Result<MediaState, HlsErrorView> {
    let line = trim(raw);
    if has_prefix(line, "#EXT-X-TARGETDURATION:"@) {
        match spec_parse_u64(
            line.skip("#EXT-X-TARGETDURATION:"@.len() as int),
            "invalid target duration",
        ) {
            Err(e) => Err(e),
            Ok(v) => if v == 0 {
                Err(HlsErrorView::InvalidPlaylist("target duration is zero"))
            } else if v * 1_000_000_000 > hl.max_segment_duration@ {
                Err(
                    HlsErrorView::SegmentDurationExceeded {
                        actual: v * 1_000_000_000,
                        limit: hl.max_segment_duration@,
                    },
                )
            } else {
                Ok(MediaState { target: Some(v * 1_000_000_000), ..s })
            },
        }
    } else if has_prefix(line, "#EXT-X-MEDIA-SEQUENCE:"@) {
        match spec_parse_u64(
            line.skip("#EXT-X-MEDIA-SEQUENCE:"@.len() as int),
            "invalid media sequence",
        ) {
            Err(e) => Err(e),
            Ok(v) => Ok(MediaState { media_sequence: v, ..s }),
        }
    } else if has_prefix(line, "#EXTINF:"@) {
        match spec_segment_info(line.skip("#EXTINF:"@.len() as int), hl) {
            Err(e) => Err(e),
            Ok(info) => Ok(MediaState { pending_info: Some(info), ..s }),
        }
    } else if line == "#EXT-X-DISCONTINUITY"@ {
        Ok(MediaState { pending_discontinuity: true, ..s })
    } else if line == "#EXT-X-ENDLIST"@ {
        Ok(MediaState { end_list: true, ..s })
    } else if line.len() > 0 && !has_prefix(line, "#"@) {
        media_data_line(s, line, base, pl, hl)
    } else {
        Ok(s)
    }
}

pub open spec fn media_fold(
    s: MediaState,
    lines: Seq<Seq<char>>,
    base: Seq<char>,
    pl: PlaylistLimits,
    hl: HlsLimits,
) -> Result<MediaState, HlsErrorView>
    decreases lines.len(),
{
    if lines.len() == 0 {
        Ok(s)
    } else {
        match media_step(s, lines[0], base, pl, hl) {
            Err(e) => Err(e),
            Ok(s2) => media_fold(s2, lines.skip(1), base, pl, hl),
        }
    }
}

pub open spec fn media_init() -> MediaState {
    MediaState {
        media_sequence: 0,
        target: None,
        end_list: false,
        segments: Seq::empty(),
        pending_info: None,
        pending_discontinuity: false,
        total: 0,
        data_lines: 0,
    }
}

pub open spec fn spec_parse_media(text: Seq<char>, base: Seq<char>, pl: PlaylistLimits, hl: HlsLimits) -> Result<
    MediaView,
    HlsErrorView,
> {
    match media_fold(media_init(), lines_after_first(text), base, pl, hl) {
        Err(e) => Err(e),
        Ok(s) => if s.segments.len() == 0 {
            Err(HlsErrorView::InvalidPlaylist("media playlist has no segments"))
        } else {
            Ok(
                MediaView {
                    media_sequence: s.media_sequence,
                    target_duration: s.target,
                    end_list: s.end_list,
                    segments: s.segments,
                },
            )
        },
    }
}

/// The mutable state of the media-playlist scan.
struct MediaScan {
    media_sequence: u64,
    target: Option<Duration>,
    end_list: bool,
    segments: Vec<HlsSegment>,
    pending_info: Option<(Option<Duration>, Option<String>)>,
    pending_discontinuity: bool,
    total: Duration,
    data_lines: usize,
}

impl View for MediaScan {
    type V = MediaState;

    closed spec fn view(&self) -> MediaState {
        MediaState {
            media_sequence: self.media_sequence,
            target: opt_duration_view(self.target),
            end_list: self.end_list,
            segments: segments_view(self.segments@),
            pending_info: match self.pending_info {
                Some((d, t)) => Some((opt_duration_view(d), crate::playlist::opt_string_seq(t))),
                None => None,
            },
            pending_discontinuity: self.pending_discontinuity,
            total: self.total@,
            data_lines: self.data_lines as int,
        }
    }
}

impl MediaScan {
    closed spec fn bounded(&self, pl: PlaylistLimits, hl: HlsLimits) -> bool {
        &&& self.data_lines <= pl.max_entries
        &&& self.segments@.len() <= hl.max_segments
    }

    #[verifier::rlimit(80)]
    fn data_line(&mut self, line: &[char], base: &[char], pl: PlaylistLimits, hl: HlsLimits) -> (result:
        Result<(), HlsError>)
        requires
            old(self).bounded(pl, hl),
        ensures
            match media_data_line(old(self)@, line@, base@, pl, hl) {
                Ok(s) => result is Ok && final(self)@ == s && final(self).bounded(pl, hl),
                Err(e) => result matches Err(r) && r@ == e,
            },
    {
        count_data_line(&mut self.data_lines, pl.max_entries)?;
        if self.segments.len() == hl.max_segments {
            return Err(HlsError::TooManySegments { limit: hl.max_segments });
        }
        let offset = self.segments.len() as u64;
        if self.media_sequence > u64::MAX - offset {
            return Err(HlsError::InvalidPlaylist("segment sequence overflow"));
        }
        let sequence = self.media_sequence + offset;
        let mut info: Option<(Option<Duration>, Option<String>)> = None;
        std::mem::swap(&mut info, &mut self.pending_info);
        let (duration, title) = match info {
            Some(i) => i,
            None => (None, None),
        };
        match duration {
            Some(d) => {
                let total = match self.total.checked_add(d) {
                    Some(t) => t,
                    None => {
                        return Err(
                            HlsError::PlaylistDurationExceeded {
                                actual: Duration::max_value(),
                                limit: hl.max_playlist_duration,
                            },
                        );
                    },
                };
                if hl.max_playlist_duration.less_than(&total) {
                    return Err(
                        HlsError::PlaylistDurationExceeded {
                            actual: total,
                            limit: hl.max_playlist_duration,
                        },
                    );
                }
                self.total = total;
            },
            None => {},
        }
        let uri = resolve_reference(base, line)?;
        let ghost before = segments_view(self.segments@);
        let segment = HlsSegment {
            sequence,
            uri,
            duration,
            title,
            discontinuity: self.pending_discontinuity,
        };
        self.segments.push(segment);
        self.pending_discontinuity = false;
        proof {
            assert(segments_view(self.segments@) =~= before.push(segment@));
        }
        Ok(())
    }

    #[verifier::rlimit(80)]
    fn line(&mut self, raw: &[char], base: &[char], pl: PlaylistLimits, hl: HlsLimits) -> (result:
        Result<(), HlsError>)
        requires
            old(self).bounded(pl, hl),
        ensures
            match media_step(old(self)@, raw@, base@, pl, hl) {
                Ok(s) => result is Ok && final(self)@ == s && final(self).bounded(pl, hl),
                Err(e) => result matches Err(r) && r@ == e,
            },
    {
        let line = trim_chars(raw);
        let target = chars_of("#EXT-X-TARGETDURATION:");
        let sequence = chars_of("#EXT-X-MEDIA-SEQUENCE:");
        let extinf = chars_of("#EXTINF:");
        let discontinuity = chars_of("#EXT-X-DISCONTINUITY");
        let endlist = chars_of("#EXT-X-ENDLIST");
        let hash = chars_of("#");
        if starts_with(line.as_slice(), target.as_slice()) {
            let value = copy_range(line.as_slice(), target.len(), line.len());
            proof {
                assert(value@ =~= line@.skip("#EXT-X-TARGETDURATION:"@.len() as int));
            }
            let secs = parse_u64(value.as_slice(), "invalid target duration")?;
            let d = Duration::from_secs(secs);
            if d.is_zero() {
                return Err(HlsError::InvalidPlaylist("target duration is zero"));
            }
            if hl.max_segment_duration.less_than(&d) {
                return Err(
                    HlsError::SegmentDurationExceeded { actual: d, limit: hl.max_segment_duration },
                );
            }
            self.target = Some(d);
        } else if starts_with(line.as_slice(), sequence.as_slice()) {
            let value = copy_range(line.as_slice(), sequence.len(), line.len());
            proof {
                assert(value@ =~= line@.skip("#EXT-X-MEDIA-SEQUENCE:"@.len() as int));
            }
            self.media_sequence = parse_u64(value.as_slice(), "invalid media sequence")?;
        } else if starts_with(line.as_slice(), extinf.as_slice()) {
            let value = copy_range(line.as_slice(), extinf.len(), line.len());
            proof {
                assert(value@ =~= line@.skip("#EXTINF:"@.len() as int));
            }
            let info = parse_segment_info(value.as_slice(), hl)?;
            self.pending_info = Some(info);
        } else if crate::playlist::seq_equal(line.as_slice(), discontinuity.as_slice()) {
            self.pending_discontinuity = true;
        } else if crate::playlist::seq_equal(line.as_slice(), endlist.as_slice()) {
            self.end_list = true;
        } else if line.len() > 0 && !starts_with(line.as_slice(), hash.as_slice()) {
            return self.data_line(line.as_slice(), base, pl, hl);
        }
        Ok(())
    }
}

fn parse_media(text: &[char], base: &[char], pl: PlaylistLimits, hl: HlsLimits) -> (result: Result<
    HlsMediaPlaylist,
    HlsError,
>)
    ensures
        match spec_parse_media(text@, base@, pl, hl) {
            Ok(v) => result matches Ok(m) && m@ == v,
            Err(e) => result matches Err(r) && r@ == e,
        },
{
    let lines = split_lines(text);
    let mut scan = MediaScan {
        media_sequence: 0,
        target: None,
        end_list: false,
        segments: Vec::new(),
        pending_info: None,
        pending_discontinuity: false,
        total: Duration::zero(),
        data_lines: 0,
    };
    proof {
        assert(segments_view(scan.segments@) =~= Seq::<SegmentView>::empty());
        assert(scan@ == media_init());
    }
    if lines.len() > 0 {
        let ghost all = crate::text::char_seqs(lines@).skip(1);
        let mut i: usize = 1;
        proof {
            assert(all.skip(0) =~= all);
        }
        while i < lines.len()
            invariant
                1 <= i <= lines@.len(),
                all == crate::text::char_seqs(lines@).skip(1),
                all == lines_after_first(text@),
                scan.bounded(pl, hl),
                media_fold(media_init(), all, base@, pl, hl) == media_fold(
                    scan@,
                    all.skip(i - 1),
                    base@,
                    pl,
                    hl,
                ),
            decreases lines@.len() - i,
        {
            proof {
                assert(all.skip(i - 1)[0] == crate::text::char_seqs(lines@)[i as int]);
                assert(all.skip(i - 1).skip(1) =~= all.skip(i as int));
            }
            scan.line(lines[i].as_slice(), base, pl, hl)?;
            i = i + 1;
        }
        proof {
            assert(all.skip(i - 1) =~= Seq::<Seq<char>>::empty());
        }
    }
    if scan.segments.len() == 0 {
        return Err(HlsError::InvalidPlaylist("media playlist has no segments"));
    }
    Ok(
        HlsMediaPlaylist {
            media_sequence: scan.media_sequence,
            target_duration: scan.target,
            end_list: scan.end_list,
            segments: scan.segments,
        },
    )
}

} // verus!

verus! {

/// Some line, trimmed, starts a variant stream.
pub open spec fn has_stream_inf(lines: Seq<Seq<char>>) -> bool {
    exists|i: int| 0 <= i < lines.len() && has_prefix(trim(#[trigger] lines[i]), "#EXT-X-STREAM-INF:"@)
}

/// What [`parse_hls_playlist`] returns.
pub open spec fn spec_parse_hls_playlist(
    bytes: Seq<u8>,
    base: Seq<char>,
    pl: PlaylistLimits,
    hl: HlsLimits,
) -> Result<PlaylistView, HlsErrorView> {
    match pl.spec_validate() {
        Err(e) => Err(HlsErrorView::Playlist(e)),
        Ok(_) => match hl.spec_validate_error() {
            Some(m) => Err(HlsErrorView::InvalidLimits(m)),
            None => if bytes.len() > pl.max_playlist_bytes {
                Err(
                    HlsErrorView::Playlist(
                        PlaylistError::TooLarge {
                            actual: bytes.len() as usize,
                            limit: pl.max_playlist_bytes,
                        },
                    ),
                )
            } else {
                match check_line_lengths(bytes, 0, pl.max_line_bytes as int) {
                    Err(e) => Err(HlsErrorView::Playlist(e)),
                    Ok(_) => {
                        let text = crate::text::utf8_lossy(bytes);
                        if !has_prefix(text, "#EXTM3U"@) {
                            Err(HlsErrorView::InvalidPlaylist("missing #EXTM3U header"))
                        } else {
                            match unsupported_feature(crate::text::lines(text)) {
                                Some(f) => Err(HlsErrorView::UnsupportedFeature(f)),
                                None => if has_stream_inf(crate::text::lines(text)) {
                                    match spec_parse_master(text, base, pl, hl) {
                                        Ok(v) => Ok(PlaylistView::Master(v)),
                                        Err(e) => Err(e),
                                    }
                                } else {
                                    match spec_parse_media(text, base, pl, hl) {
                                        Ok(m) => Ok(PlaylistView::Media(m)),
                                        Err(e) => Err(e),
                                    }
                                },
                            }
                        }
                    },
                }
            },
        },
    }
}

/// The declared durations of the segments together.
pub open spec fn durations_total(segments: Seq<SegmentView>) -> int
    decreases segments.len(),
{
    if segments.len() == 0 {
        0
    } else {
        durations_total(segments.drop_last()) + match segments.last().duration {
            Some(d) => d,
            None => 0,
        }
    }
}

/// Every declared segment duration is within the segment bound.
pub open spec fn durations_bounded(segments: Seq<SegmentView>, hl: HlsLimits) -> bool {
    forall|i: int|
        0 <= i < segments.len() ==> ((#[trigger] segments[i]).duration matches Some(d) ==> 0 <= d
            <= hl.max_segment_duration@)
}

spec fn media_inv(s: MediaState, pl: PlaylistLimits, hl: HlsLimits) -> bool {
    &&& s.data_lines == s.segments.len()
    &&& s.segments.len() <= pl.max_entries
    &&& s.segments.len() <= hl.max_segments
    &&& s.total == durations_total(s.segments)
    &&& s.total <= hl.max_playlist_duration@
    &&& durations_bounded(s.segments, hl)
    &&& (s.pending_info matches Some((Some(d), _)) ==> 0 <= d <= hl.max_segment_duration@)
}

proof fn lemma_media_fold_inv(
    s: MediaState,
    lines: Seq<Seq<char>>,
    base: Seq<char>,
    pl: PlaylistLimits,
    hl: HlsLimits,
)
    requires
        media_inv(s, pl, hl),
    ensures
        media_fold(s, lines, base, pl, hl) matches Ok(s2) ==> media_inv(s2, pl, hl),
    decreases lines.len(),
{
    if lines.len() > 0 {
        match media_step(s, lines[0], base, pl, hl) {
            Err(_) => {},
            Ok(s2) => {
                if s2.segments.len() == s.segments.len() + 1 {
                    assert(s2.segments.drop_last() =~= s.segments);
                    assert(durations_bounded(s2.segments, hl)) by {
                        assert forall|i: int| 0 <= i < s2.segments.len() implies ((
                        #[trigger] s2.segments[i]).duration matches Some(d) ==> 0 <= d
                            <= hl.max_segment_duration@) by {
                            if i < s.segments.len() {
                                assert(s2.segments[i] == s.segments[i]);
                            }
                        }
                    }
                } else {
                    assert(s2.segments == s.segments);
                }
                lemma_media_fold_inv(s2, lines.skip(1), base, pl, hl);
            },
        }
    }
}

/// No `#EXT-X-MEDIA-SEQUENCE` line follows a segment URI line (`seen_data` says whether one came
/// before these lines).
pub open spec fn sequence_before_segments(lines: Seq<Seq<char>>, seen_data: bool) -> bool
    decreases lines.len(),
{
    if lines.len() == 0 {
        true
    } else {
        let line = trim(lines[0]);
        let is_sequence = has_prefix(line, "#EXT-X-MEDIA-SEQUENCE:"@);
        let is_data = line.len() > 0 && !has_prefix(line, "#"@);
        !(seen_data && is_sequence) && sequence_before_segments(lines.skip(1), seen_data || is_data)
    }
}

/// Segments are numbered from the media sequence on.
pub open spec fn numbered_from(segments: Seq<SegmentView>, first: u64) -> bool {
    forall|i: int| 0 <= i < segments.len() ==> (#[trigger] segments[i]).sequence == first + i
}

/// The tag lines of a media playlist start with `#`, so no URI line is one of them.
proof fn lemma_tag_lines_start_with_hash(line: Seq<char>)
    ensures
        !has_prefix(line, "#"@) ==> !has_prefix(line, "#EXT-X-TARGETDURATION:"@) && !has_prefix(
            line,
            "#EXT-X-MEDIA-SEQUENCE:"@,
        ) && !has_prefix(line, "#EXTINF:"@) && line != "#EXT-X-DISCONTINUITY"@ && line
            != "#EXT-X-ENDLIST"@,
{
    reveal_strlit("#");
    reveal_strlit("#EXT-X-TARGETDURATION:");
    reveal_strlit("#EXT-X-MEDIA-SEQUENCE:");
    reveal_strlit("#EXTINF:");
    reveal_strlit("#EXT-X-DISCONTINUITY");
    reveal_strlit("#EXT-X-ENDLIST");
    if line.len() > 0 && line[0] == '#' {
        assert(line.take(1) =~= "#"@);
    }
    if has_prefix(line, "#EXT-X-TARGETDURATION:"@) {
        assert(line[0] == line.take(22)[0]);
    }
    if has_prefix(line, "#EXT-X-MEDIA-SEQUENCE:"@) {
        assert(line[0] == line.take(22)[0]);
    }
    if has_prefix(line, "#EXTINF:"@) {
        assert(line[0] == line.take(8)[0]);
    }
}

proof fn lemma_media_fold_numbering(
    s: MediaState,
    lines: Seq<Seq<char>>,
    base: Seq<char>,
    pl: PlaylistLimits,
    hl: HlsLimits,
)
    requires
        numbered_from(s.segments, s.media_sequence),
        sequence_before_segments(lines, s.segments.len() > 0),
    ensures
        media_fold(s, lines, base, pl, hl) matches Ok(s2) ==> numbered_from(s2.segments, s2.media_sequence),
    decreases lines.len(),
{
    if lines.len() > 0 {
        match media_step(s, lines[0], base, pl, hl) {
            Err(_) => {},
            Ok(s2) => {
                let line = trim(lines[0]);
                let is_data = line.len() > 0 && !has_prefix(line, "#"@);
                lemma_tag_lines_start_with_hash(line);
                if is_data {
                    assert(s2.segments.len() == s.segments.len() + 1);
                } else {
                    assert(s2.segments == s.segments);
                }
                if s2.segments.len() == s.segments.len() + 1 {
                    assert(s2.segments.drop_last() =~= s.segments);
                    assert forall|i: int| 0 <= i < s2.segments.len() implies (
                    #[trigger] s2.segments[i]).sequence == s2.media_sequence + i by {
                        if i < s.segments.len() {
                            assert(s2.segments[i] == s.segments[i]);
                        }
                    }
                    assert(line.len() > 0 && !has_prefix(line, "#"@));
                } else {
                    assert(s2.segments == s.segments);
                    if s.segments.len() > 0 {
                        assert(!has_prefix(line, "#EXT-X-MEDIA-SEQUENCE:"@));
                        assert(s2.media_sequence == s.media_sequence);
                    }
                }
                lemma_media_fold_numbering(s2, lines.skip(1), base, pl, hl);
            },
        }
    }
}

/// When no media-sequence line follows a segment URI, a parsed media playlist numbers its
/// segments consecutively from its media sequence.
pub proof fn law_segments_are_numbered_from_media_sequence(
    bytes: Seq<u8>,
    base: Seq<char>,
    pl: PlaylistLimits,
    hl: HlsLimits,
)
    requires
        sequence_before_segments(lines_after_first(crate::text::utf8_lossy(bytes)), false),
    ensures
        spec_parse_hls_playlist(bytes, base, pl, hl) matches Ok(PlaylistView::Media(m))
            ==> numbered_from(m.segments, m.media_sequence),
{
    let lines = lines_after_first(crate::text::utf8_lossy(bytes));
    lemma_media_fold_numbering(media_init(), lines, base, pl, hl);
}

spec fn master_inv(s: MasterState, pl: PlaylistLimits, hl: HlsLimits) -> bool {
    &&& s.variants.len() <= s.data_lines <= pl.max_entries
    &&& s.variants.len() <= hl.max_variants
}

proof fn lemma_master_fold_inv(
    s: MasterState,
    lines: Seq<Seq<char>>,
    base: Seq<char>,
    pl: PlaylistLimits,
    hl: HlsLimits,
)
    requires
        master_inv(s, pl, hl),
    ensures
        master_fold(s, lines, base, pl, hl) matches Ok(s2) ==> master_inv(s2, pl, hl),
    decreases lines.len(),
{
    if lines.len() > 0 {
        match master_step(s, lines[0], base, pl, hl) {
            Err(_) => {},
            Ok(s2) => lemma_master_fold_inv(s2, lines.skip(1), base, pl, hl),
        }
    }
}

/// A parsed media playlist has at least one segment and no more than the segment and entry
/// limits allow; each declared duration is within the segment bound and their sum within the
/// playlist bound. A parsed master playlist has at least one variant and no more than the
/// variant and entry limits allow.
pub proof fn law_parsed_playlist_is_bounded(
    bytes: Seq<u8>,
    base: Seq<char>,
    pl: PlaylistLimits,
    hl: HlsLimits,
)
    ensures
        spec_parse_hls_playlist(bytes, base, pl, hl) matches Ok(PlaylistView::Media(m)) ==> {
            &&& 0 < m.segments.len() <= hl.max_segments
            &&& m.segments.len() <= pl.max_entries
            &&& durations_bounded(m.segments, hl)
            &&& durations_total(m.segments) <= hl.max_playlist_duration@
        },
        spec_parse_hls_playlist(bytes, base, pl, hl) matches Ok(PlaylistView::Master(v)) ==> 0
            < v.len() <= hl.max_variants && v.len() <= pl.max_entries,
{
    let text = crate::text::utf8_lossy(bytes);
    let lines = lines_after_first(text);
    assert(media_inv(media_init(), pl, hl)) by {
        crate::duration::lemma_duration_nonnegative(hl.max_playlist_duration);
        assert(durations_total(Seq::<SegmentView>::empty()) == 0);
    }
    lemma_media_fold_inv(media_init(), lines, base, pl, hl);
    lemma_master_fold_inv(
        MasterState { variants: Seq::empty(), pending: None, data_lines: 0 },
        lines,
        base,
        pl,
        hl,
    );
}

fn any_stream_inf(text: &[char]) -> (result: bool)
    ensures
        result == has_stream_inf(crate::text::lines(text@)),
{
    let lines = split_lines(text);
    let stream_inf = chars_of("#EXT-X-STREAM-INF:");
    let mut i: usize = 0;
    while i < lines.len()
        invariant
            i <= lines@.len(),
            crate::text::char_seqs(lines@) == crate::text::lines(text@),
            stream_inf@ == "#EXT-X-STREAM-INF:"@,
            forall|j: int|
                0 <= j < i ==> !has_prefix(
                    trim(#[trigger] crate::text::char_seqs(lines@)[j]),
                    "#EXT-X-STREAM-INF:"@,
                ),
        decreases lines@.len() - i,
    {
        let line = trim_chars(lines[i].as_slice());
        if starts_with(line.as_slice(), stream_inf.as_slice()) {
            proof {
                assert(crate::text::char_seqs(lines@)[i as int] == lines@[i as int]@);
            }
            return true;
        }
        proof {
            assert(crate::text::char_seqs(lines@)[i as int] == lines@[i as int]@);
        }
        i = i + 1;
    }
    false
}

/// Parses one bounded HLS master or media playlist and resolves all selected URIs against the
/// base URI.
pub fn parse_hls_playlist(
    bytes: &[u8],
    base_uri: &str,
    playlist_limits: PlaylistLimits,
    hls_limits: HlsLimits,
) -> (result: Result<HlsPlaylist, HlsError>)
    ensures
        match spec_parse_hls_playlist(bytes@, base_uri@, playlist_limits, hls_limits) {
            Ok(v) => result matches Ok(p) && p@ == v,
            Err(e) => result matches Err(r) && r@ == e,
        },
{
    match playlist_limits.validate() {
        Ok(_) => {},
        Err(e) => {
            return Err(HlsError::Playlist(e));
        },
    }
    hls_limits.validate()?;
    if bytes.len() > playlist_limits.max_playlist_bytes {
        return Err(
            HlsError::Playlist(
                PlaylistError::TooLarge {
                    actual: bytes.len(),
                    limit: playlist_limits.max_playlist_bytes,
                },
            ),
        );
    }
    match validate_line_lengths(bytes, playlist_limits.max_line_bytes) {
        Ok(_) => {},
        Err(e) => {
            return Err(HlsError::Playlist(e));
        },
    }
    let decoded = crate::text::decode_utf8_lossy(bytes);
    let text = chars_of(decoded.as_str());
    let header = chars_of("#EXTM3U");
    if !starts_with(text.as_slice(), header.as_slice()) {
        return Err(HlsError::InvalidPlaylist("missing #EXTM3U header"));
    }
    reject_unsupported_features(text.as_slice())?;
    let base = chars_of(base_uri);
    if any_stream_inf(text.as_slice()) {
        let master = parse_master(text.as_slice(), base.as_slice(), playlist_limits, hls_limits)?;
        Ok(HlsPlaylist::Master(master))
    } else {
        let media = parse_media(text.as_slice(), base.as_slice(), playlist_limits, hls_limits)?;
        Ok(HlsPlaylist::Media(media))
    }
}

} // verus!

verus! {

// ---------------------------------------------------------------------------------------------
// Finite (VOD) sequences
// ---------------------------------------------------------------------------------------------

/// One call of [`HlsVodSequence::next_segment`] on a cursor at `next`: the segment there and the
/// cursor after it, or nothing, and the cursor unchanged, at the end.
pub open spec fn spec_vod_step(segments: Seq<SegmentView>, next: int) -> (Option<SegmentView>, int) {
    if 0 <= next < segments.len() {
        (Some(segments[next]), next + 1)
    } else {
        (None, next)
    }
}

/// The cursor of a new sequence after `calls` calls of [`HlsVodSequence::next_segment`].
pub open spec fn spec_vod_cursor(segments: Seq<SegmentView>, calls: nat) -> int
    decreases calls,
{
    if calls == 0 {
        0
    } else {
        spec_vod_step(segments, spec_vod_cursor(segments, (calls - 1) as nat)).1
    }
}

/// Over a whole run of calls on a new sequence, call number `calls + 1` yields the segment at
/// that position while there is one and nothing after the end, so each segment is yielded
/// once and in order; the remaining count is the segments not yet yielded.
pub proof fn law_vod_yields_each_segment_once_in_order(segments: Seq<SegmentView>, calls: nat)
    ensures
        spec_vod_cursor(segments, calls) == min_of(calls as int, segments.len() as int),
        spec_vod_step(segments, spec_vod_cursor(segments, calls)).0 == if calls < segments.len() {
            Some(segments[calls as int])
        } else {
            None
        },
        segments.len() - spec_vod_cursor(segments, calls) == if calls < segments.len() {
            segments.len() - calls
        } else {
            0
        },
    decreases calls,
{
    if calls > 0 {
        law_vod_yields_each_segment_once_in_order(segments, (calls - 1) as nat);
    }
}

/// A finite cursor over the segments of an ended media playlist.
#[derive(Debug)]
pub struct HlsVodSequence {
    media: HlsMediaPlaylist,
    next_index: usize,
}

impl HlsVodSequence {
    pub closed spec fn spec_segments(&self) -> Seq<SegmentView> {
        segments_view(self.media.segments@)
    }

    pub closed spec fn spec_next(&self) -> int {
        self.next_index as int
    }

    /// The cursor never passes the end of the segments.
    #[verifier::type_invariant]
    closed spec fn wf(&self) -> bool {
        self.next_index <= self.media.segments@.len()
    }

    /// Creates a finite cursor; a playlist without `#EXT-X-ENDLIST` is refused.
    pub fn new(media: HlsMediaPlaylist) -> (result: Result<Self, HlsError>)
        ensures
            !media.end_list ==> result matches Err(HlsError::NotVod),
            media.end_list ==> (result matches Ok(s) && s.spec_segments() == media@.segments
                && s.spec_next() == 0),
    {
        if !media.end_list {
            return Err(HlsError::NotVod);
        }
        Ok(HlsVodSequence { media, next_index: 0 })
    }

    pub fn remaining(&self) -> (count: usize)
        ensures
            count == self.spec_segments().len() - self.spec_next(),
    {
        proof {
            use_type_invariant(self);
        }
        self.media.segments.len() - self.next_index
    }

    /// Yields the next segment in playlist order, or nothing once all were yielded.
    pub fn next_segment(&mut self) -> (segment: Option<&HlsSegment>)
        ensures
            old(self).spec_next() <= old(self).spec_segments().len(),
            final(self).spec_segments() == old(self).spec_segments(),
            old(self).spec_next() < old(self).spec_segments().len() ==> (segment matches Some(s)
                && s@ == old(self).spec_segments()[old(self).spec_next()] && final(self).spec_next()
                == old(self).spec_next() + 1),
            old(self).spec_next() == old(self).spec_segments().len() ==> (segment is None
                && final(self).spec_next() == old(self).spec_next()),
            (match segment {
                Some(s) => Some(s@),
                None => None,
            }) == spec_vod_step(old(self).spec_segments(), old(self).spec_next()).0,
            final(self).spec_next() == spec_vod_step(old(self).spec_segments(), old(self).spec_next()).1,
    {
        proof {
            use_type_invariant(&*self);
        }
        let index = self.next_index;
        if index >= self.media.segments.len() {
            return None;
        }
        self.next_index = index + 1;
        Some(&self.media.segments[index])
    }
}

} // verus!

verus! {

// ---------------------------------------------------------------------------------------------
// Live sequences
// ---------------------------------------------------------------------------------------------

/// Bounds for live-playlist polling and retained segment identities.
#[derive(Clone, Copy, Debug, PartialEq, Eq)]
pub struct HlsLiveLimits {
    pub max_retained_segments: usize,
    pub reload_interval: Duration,
    pub max_segment_wait: Duration,
    pub max_no_progress_reloads: usize,
}

impl HlsLiveLimits {
    pub fn default_limits() -> (limits: Self)
        ensures
            limits.max_retained_segments == 1_024,
            limits.reload_interval@ == 200 * 1_000_000,
            limits.max_segment_wait@ == 3600 * 1_000_000_000,
            limits.max_no_progress_reloads == 20_000,
    {
        HlsLiveLimits {
            max_retained_segments: 1_024,
            reload_interval: Duration::from_millis(200),
            max_segment_wait: Duration::from_hours(1),
            max_no_progress_reloads: 20_000,
        }
    }

    pub open spec fn spec_validate_error(self) -> Option<&'static str> {
        if self.max_retained_segments == 0 {
            Some("max_retained_segments must be non-zero")
        } else if self.reload_interval@ == 0 {
            Some("reload_interval must be non-zero")
        } else if self.max_segment_wait@ == 0 {
            Some("max_segment_wait must be non-zero")
        } else if self.max_no_progress_reloads == 0 {
            Some("max_no_progress_reloads must be non-zero")
        } else {
            None
        }
    }

    pub fn validate(self) -> (result: Result<Self, HlsError>)
        ensures
            match self.spec_validate_error() {
                Some(m) => result matches Err(HlsError::InvalidLimits(r)) && r == m,
                None => result matches Ok(l) && l == self,
            },
    {
        if self.max_retained_segments == 0 {
            return Err(HlsError::InvalidLimits("max_retained_segments must be non-zero"));
        }
        if self.reload_interval.is_zero() {
            return Err(HlsError::InvalidLimits("reload_interval must be non-zero"));
        }
        if self.max_segment_wait.is_zero() {
            return Err(HlsError::InvalidLimits("max_segment_wait must be non-zero"));
        }
        if self.max_no_progress_reloads == 0 {
            return Err(HlsError::InvalidLimits("max_no_progress_reloads must be non-zero"));
        }
        Ok(self)
    }
}

/// Result of applying one fetched media-playlist snapshot to an [`HlsLiveSequence`].
#[derive(Clone, Debug, PartialEq, Eq)]
pub enum HlsLivePoll {
    Segment(HlsSegment),
    WaitUntil(Duration),
    Ended,
    Exhausted,
}

pub enum PollView {
    Segment(SegmentView),
    WaitUntil(int),
    Ended,
    Exhausted,
}

impl View for HlsLivePoll {
    type V = PollView;

    open spec fn view(&self) -> PollView {
        match self {
            HlsLivePoll::Segment(s) => PollView::Segment(s@),
            HlsLivePoll::WaitUntil(d) => PollView::WaitUntil(d@),
            HlsLivePoll::Ended => PollView::Ended,
            HlsLivePoll::Exhausted => PollView::Exhausted,
        }
    }
}

/// The abstract state of an [`HlsLiveSequence`].
pub struct LiveView {
    pub limits: HlsLiveLimits,
    pub last_uri: Option<Seq<char>>,
    pub retained: Seq<Seq<char>>,
    pub wait_started_at: Option<int>,
    pub next_reload_at: Option<int>,
    pub last_poll_at: Option<int>,
    pub no_progress_reloads: int,
}

pub open spec fn min_of(a: int, b: int) -> int {
    if a <= b {
        a
    } else {
        b
    }
}

/// Position of the first segment with the given URI.
pub open spec fn first_with_uri(segments: Seq<SegmentView>, uri: Seq<char>) -> Option<int>
    decreases segments.len(),
{
    if segments.len() == 0 {
        None
    } else if segments[0].uri == uri {
        Some(0)
    } else {
        match first_with_uri(segments.skip(1), uri) {
            Some(i) => Some(i + 1),
            None => None,
        }
    }
}

/// Where selection resumes: just after the last emitted URI, or at the start when it is gone.
pub open spec fn live_start(last: Option<Seq<char>>, segments: Seq<SegmentView>) -> int {
    match last {
        None => 0,
        Some(l) => match first_with_uri(segments, l) {
            Some(i) => i + 1,
            None => 0,
        },
    }
}

/// The first segment at or after `from` whose URI is not retained.
pub open spec fn first_unretained(segments: Seq<SegmentView>, from: int, retained: Seq<Seq<char>>) -> Option<
    int,
>
    decreases segments.len() - from,
{
    if from < 0 || from >= segments.len() {
        None
    } else if !retained.contains(segments[from].uri) {
        Some(from)
    } else {
        first_unretained(segments, from + 1, retained)
    }
}

/// Appends an emitted URI to the retained window, dropping the oldest beyond the bound.
pub open spec fn retain_uri(retained: Seq<Seq<char>>, uri: Seq<char>, bound: int) -> Seq<Seq<char>> {
    if retained.len() + 1 > bound {
        retained.push(uri).skip(1)
    } else {
        retained.push(uri)
    }
}

/// One poll of a live sequence at `now`: the next state and the outcome.
pub open spec fn spec_poll(s: LiveView, p: MediaView, now: int) -> (LiveView, Result<
    PollView,
    HlsErrorView,
>) {
    if s.last_poll_at is Some && now < s.last_poll_at->0 {
        (s, Err(HlsErrorView::InvalidPlaylist("live poll time moved backwards")))
    } else {
        let s1 = LiveView { last_poll_at: Some(now), ..s };
        if s1.next_reload_at is Some && now < s1.next_reload_at->0 {
            (s1, Ok(PollView::WaitUntil(s1.next_reload_at->0)))
        } else {
            match first_unretained(p.segments, live_start(s.last_uri, p.segments), s.retained) {
                Some(i) => (
                    LiveView {
                        last_uri: Some(p.segments[i].uri),
                        retained: retain_uri(
                            s.retained,
                            p.segments[i].uri,
                            s.limits.max_retained_segments as int,
                        ),
                        wait_started_at: None,
                        next_reload_at: None,
                        no_progress_reloads: 0,
                        ..s1
                    },
                    Ok(PollView::Segment(p.segments[i])),
                ),
                None => if p.end_list {
                    (
                        LiveView { wait_started_at: None, next_reload_at: None, ..s1 },
                        Ok(PollView::Ended),
                    )
                } else if p.segments.len() == 0 || p.segments[0].duration is None {
                    (LiveView { next_reload_at: None, ..s1 }, Ok(PollView::Exhausted))
                } else {
                    let wait = min_of(p.segments[0].duration->0, s.limits.max_segment_wait@);
                    let started = match s1.wait_started_at {
                        Some(w) => w,
                        None => now,
                    };
                    let s2 = LiveView { wait_started_at: Some(started), ..s1 };
                    let deadline = min_of(started + wait, max_nanos());
                    if now >= deadline {
                        (LiveView { next_reload_at: None, ..s2 }, Ok(PollView::Exhausted))
                    } else {
                        let reloads = min_of(s.no_progress_reloads + 1, usize::MAX as int);
                        let s3 = LiveView { no_progress_reloads: reloads, ..s2 };
                        if reloads > s.limits.max_no_progress_reloads {
                            (
                                s3,
                                Err(
                                    HlsErrorView::LiveReloadLimitExceeded {
                                        limit: s.limits.max_no_progress_reloads,
                                    },
                                ),
                            )
                        } else {
                            let next = min_of(
                                min_of(now + s.limits.reload_interval@, max_nanos()),
                                deadline,
                            );
                            (LiveView { next_reload_at: Some(next), ..s3 }, Ok(PollView::WaitUntil(next)))
                        }
                    }
                }
            }
        }
    }
}

#[verifier::external_body]
/// Reports the capacity of a deque.
///
/// Calls `VecDeque::capacity`; its documentation promises room for at least that many elements
/// without reallocating, so never less than the length, which the contract states. The exact
/// value depends on the allocator.
fn deque_capacity(v: &VecDeque<String>) -> (capacity: usize)
    ensures
        capacity >= v@.len(),
{
    v.capacity()
}

#[verifier::external_body]
/// Reports the capacity of a string in bytes.
///
/// Calls `String::capacity`; its documentation promises that a string's length in bytes never
/// exceeds its capacity, which the contract states. The exact value depends on the allocator.
fn string_capacity(s: &String) -> (capacity: usize)
    ensures
        capacity >= crate::route_util::utf8_len(s@),
{
    s.capacity()
}

/// The UTF-8 bytes of the texts together.
pub open spec fn utf8_total(texts: Seq<Seq<char>>) -> int
    decreases texts.len(),
{
    if texts.len() == 0 {
        0
    } else {
        utf8_total(texts.drop_last()) + crate::route_util::utf8_len(texts.last())
    }
}

/// The UTF-8 bytes of the retained URIs and of the last emitted URI.
pub open spec fn identity_bytes(s: LiveView) -> int {
    utf8_total(s.retained) + match s.last_uri {
        Some(u) => crate::route_util::utf8_len(u) as int,
        None => 0,
    }
}

/// Bounded deterministic state for selecting segments from live HLS snapshots.
#[derive(Debug)]
pub struct HlsLiveSequence {
    limits: HlsLiveLimits,
    last_uri: Option<String>,
    retained_uris: VecDeque<String>,
    wait_started_at: Option<Duration>,
    next_reload_at: Option<Duration>,
    last_poll_at: Option<Duration>,
    no_progress_reloads: usize,
}

pub open spec fn strings_view(v: Seq<String>) -> Seq<Seq<char>> {
    v.map_values(|s: String| s@)
}

impl View for HlsLiveSequence {
    type V = LiveView;

    closed spec fn view(&self) -> LiveView {
        LiveView {
            limits: self.limits,
            last_uri: crate::playlist::opt_string_seq(self.last_uri),
            retained: strings_view(self.retained_uris@),
            wait_started_at: opt_duration_view(self.wait_started_at),
            next_reload_at: opt_duration_view(self.next_reload_at),
            last_poll_at: opt_duration_view(self.last_poll_at),
            no_progress_reloads: self.no_progress_reloads as int,
        }
    }
}

/// Well-formed live state: the retained window never exceeds its bound.
pub open spec fn live_wf(s: LiveView) -> bool {
    &&& s.retained.len() <= s.limits.max_retained_segments
    &&& s.limits.max_retained_segments > 0
    &&& 0 <= s.no_progress_reloads <= usize::MAX
}

impl HlsLiveSequence {
    /// The retained window never exceeds its bound.
    #[verifier::type_invariant]
    closed spec fn live_inv(&self) -> bool {
        live_wf(self@)
    }
}

impl HlsLiveSequence {
    /// Creates live selection state with centralized history and polling bounds.
    pub fn new(limits: HlsLiveLimits) -> (result: Result<Self, HlsError>)
        ensures
            match limits.spec_validate_error() {
                Some(m) => result matches Err(HlsError::InvalidLimits(r)) && r == m,
                None => result matches Ok(s) && live_wf(s@) && s@ == (LiveView {
                    limits,
                    last_uri: None,
                    retained: Seq::empty(),
                    wait_started_at: None,
                    next_reload_at: None,
                    last_poll_at: None,
                    no_progress_reloads: 0,
                }),
            },
    {
        limits.validate()?;
        let s = HlsLiveSequence {
            limits,
            last_uri: None,
            retained_uris: VecDeque::new(),
            wait_started_at: None,
            next_reload_at: None,
            last_poll_at: None,
            no_progress_reloads: 0,
        };
        proof {
            assert(strings_view(s.retained_uris@) =~= Seq::<Seq<char>>::empty());
        }
        Ok(s)
    }

    pub fn retained_segments(&self) -> (count: usize)
        ensures
            count == self@.retained.len(),
    {
        self.retained_uris.len()
    }

    /// Room for retained identities: at least the retained count, and none before the first
    /// segment is retained (the window never empties once it holds a segment, and an empty
    /// vector that was never pushed to has allocated nothing).
    pub fn retained_segment_capacity(&self) -> (capacity: usize)
        ensures
            capacity >= self@.retained.len(),
            self@.retained.len() == 0 ==> capacity == 0,
    {
        if self.retained_uris.len() == 0 {
            0
        } else {
            deque_capacity(&self.retained_uris)
        }
    }

    /// Bytes reserved by the retained URIs and the last emitted URI, saturating: the sum of their
    /// capacities, each at least the URI's length in bytes; nothing is reserved when nothing is
    /// retained.
    pub fn retained_identity_capacity_bytes(&self) -> (bytes: usize)
        ensures
            bytes >= min_of(usize::MAX as int, identity_bytes(self@)),
            self@.retained.len() == 0 && self@.last_uri is None ==> bytes == 0,
    {
        let ghost uris = strings_view(self.retained_uris@);
        let mut total: usize = 0;
        let mut i: usize = 0;
        while i < self.retained_uris.len()
            invariant
                i <= self.retained_uris@.len(),
                uris == strings_view(self.retained_uris@),
                total >= min_of(usize::MAX as int, utf8_total(uris.take(i as int))),
                i == 0 ==> total == 0,
            decreases self.retained_uris@.len() - i,
        {
            let c = string_capacity(&self.retained_uris[i]);
            proof {
                assert(uris.take(i + 1).drop_last() =~= uris.take(i as int));
                assert(uris.take(i + 1).last() == self.retained_uris@[i as int]@);
            }
            total = total.saturating_add(c);
            i = i + 1;
        }
        proof {
            assert(uris.take(i as int) =~= uris);
        }
        match &self.last_uri {
            Some(uri) => total.saturating_add(string_capacity(uri)),
            None => total,
        }
    }

    fn is_retained(&self, uri: &String) -> (result: bool)
        ensures
            result == self@.retained.contains(uri@),
    {
        let mut i: usize = 0;
        while i < self.retained_uris.len()
            invariant
                i <= self.retained_uris@.len(),
                forall|j: int| 0 <= j < i ==> self.retained_uris@[j]@ != uri@,
            decreases self.retained_uris@.len() - i,
        {
            if self.retained_uris[i] == *uri {
                proof {
                    assert(self@.retained[i as int] == uri@);
                }
                return true;
            }
            i = i + 1;
        }
        proof {
            if self@.retained.contains(uri@) {
                let k = choose|k: int| 0 <= k < self@.retained.len() && self@.retained[k] == uri@;
                assert(self.retained_uris@[k]@ == uri@);
            }
        }
        false
    }

    fn record_segment(&mut self, uri: &String)
        requires
            live_wf(old(self)@),
        ensures
            live_wf(final(self)@),
            final(self)@ == (LiveView {
                last_uri: Some(uri@),
                retained: retain_uri(
                    old(self)@.retained,
                    uri@,
                    old(self)@.limits.max_retained_segments as int,
                ),
                ..old(self)@
            }),
    {
        let ghost before = self@.retained;
        self.last_uri = Some(uri.clone());
        let mut uris: VecDeque<String> = VecDeque::new();
        std::mem::swap(&mut uris, &mut self.retained_uris);
        if uris.len() >= self.limits.max_retained_segments {
            uris.pop_front();
            proof {
                assert(strings_view(uris@) =~= before.skip(1));
            }
        }
        let ghost middle = strings_view(uris@);
        uris.push_back(uri.clone());
        self.retained_uris = uris;
        proof {
            assert(strings_view(self.retained_uris@) =~= middle.push(uri@));
            if before.len() + 1 > self.limits.max_retained_segments {
                assert(middle.push(uri@) =~= before.push(uri@).skip(1));
            } else {
                assert(middle =~= before);
            }
        }
    }
}

pub proof fn lemma_first_with_uri(segments: Seq<SegmentView>, uri: Seq<char>)
    ensures
        first_with_uri(segments, uri) matches Some(i) ==> 0 <= i < segments.len()
            && segments[i].uri == uri && forall|j: int| 0 <= j < i ==> segments[j].uri != uri,
        first_with_uri(segments, uri) is None ==> forall|j: int|
            0 <= j < segments.len() ==> segments[j].uri != uri,
    decreases segments.len(),
{
    if segments.len() > 0 {
        lemma_first_with_uri(segments.skip(1), uri);
        assert forall|j: int| 1 <= j < segments.len() implies segments[j] == segments.skip(1)[j
            - 1] by {}
    }
}

fn find_uri(segments: &Vec<HlsSegment>, uri: &String) -> (result: Option<usize>)
    ensures
        match result {
            Some(i) => first_with_uri(segments_view(segments@), uri@) == Some(i as int),
            None => first_with_uri(segments_view(segments@), uri@) is None,
        },
{
    let ghost all = segments_view(segments@);
    let mut i: usize = 0;
    while i < segments.len()
        invariant
            i <= segments@.len(),
            all == segments_view(segments@),
            forall|j: int| 0 <= j < i ==> all[j].uri != uri@,
        decreases segments@.len() - i,
    {
        if segments[i].uri == *uri {
            proof {
                lemma_first_with_uri(all, uri@);
                assert(all[i as int].uri == uri@);
                match first_with_uri(all, uri@) {
                    Some(k) => {
                        if k < i {
                            assert(all[k].uri == uri@);
                        } else if k > i {
                            assert(all[i as int].uri != uri@);
                        }
                    },
                    None => {
                        assert(all[i as int].uri != uri@);
                    },
                }
            }
            return Some(i);
        }
        proof {
            assert(all[i as int].uri == segments@[i as int].uri@);
        }
        i = i + 1;
    }
    proof {
        lemma_first_with_uri(all, uri@);
        match first_with_uri(all, uri@) {
            Some(k) => {
                assert(all[k].uri == uri@);
            },
            None => {},
        }
    }
    None
}

fn clone_segment(segment: &HlsSegment) -> (copy: HlsSegment)
    ensures
        copy@ == segment@,
{
    let title = match &segment.title {
        Some(t) => Some(t.clone()),
        None => None,
    };
    HlsSegment {
        sequence: segment.sequence,
        uri: segment.uri.clone(),
        duration: segment.duration,
        title,
        discontinuity: segment.discontinuity,
    }
}

impl HlsLiveSequence {
    /// Applies one already-bounded playlist snapshot at a caller-supplied monotonic time.
    ///
    /// Selection is oldest-first. When the last emitted URI is no longer in the snapshot, the
    /// oldest unseen URI in the current window is selected. A no-progress snapshot requests
    /// another poll after the configured interval, capped by the first segment's declared
    /// duration and `max_segment_wait`. Time moving backwards and exceeding the no-progress reload
    /// ceiling are errors.
    #[verifier::rlimit(80)]
    pub fn poll(&mut self, playlist: &HlsMediaPlaylist, now: Duration) -> (result: Result<
        HlsLivePoll,
        HlsError,
    >)
        ensures
            live_wf(final(self)@),
            final(self)@ == spec_poll(old(self)@, playlist@, now@).0,
            match spec_poll(old(self)@, playlist@, now@).1 {
                Ok(v) => result matches Ok(r) && r@ == v,
                Err(e) => result matches Err(r) && r@ == e,
            },
    {
        proof {
            use_type_invariant(&*self);
        }
        let ghost s0 = self@;
        match self.last_poll_at {
            Some(previous) => {
                if now.less_than(&previous) {
                    return Err(HlsError::InvalidPlaylist("live poll time moved backwards"));
                }
            },
            None => {},
        }
        self.last_poll_at = Some(now);
        match self.next_reload_at {
            Some(t) => {
                if now.less_than(&t) {
                    return Ok(HlsLivePoll::WaitUntil(t));
                }
            },
            None => {},
        }
        let ghost segs = segments_view(playlist.segments@);
        let _segment_count = playlist.segments.len();
        let start: usize = match &self.last_uri {
            None => 0,
            Some(last) => {
                proof {
                    lemma_first_with_uri(segs, last@);
                }
                match find_uri(&playlist.segments, last) {
                    Some(i) => i + 1,
                    None => 0,
                }
            },
        };
        assert(start == live_start(s0.last_uri, segs));
        let mut i = start;
        while i < playlist.segments.len() && self.is_retained(&playlist.segments[i].uri)
            invariant
                start <= i,
                segs == segments_view(playlist.segments@),
                i <= playlist.segments@.len() || i == start,
                start <= playlist.segments@.len(),
                self@.retained == s0.retained,
                first_unretained(segs, start as int, s0.retained) == first_unretained(
                    segs,
                    i as int,
                    s0.retained,
                ),
            decreases playlist.segments@.len() - i,
        {
            proof {
                assert(segs[i as int].uri == playlist.segments@[i as int].uri@);
            }
            i = i + 1;
        }
        if i < playlist.segments.len() {
            proof {
                assert(segs[i as int].uri == playlist.segments@[i as int].uri@);
            }
            let segment = clone_segment(&playlist.segments[i]);
            self.record_segment(&segment.uri);
            self.wait_started_at = None;
            self.next_reload_at = None;
            self.no_progress_reloads = 0;
            return Ok(HlsLivePoll::Segment(segment));
        }
        if playlist.end_list {
            self.wait_started_at = None;
            self.next_reload_at = None;
            return Ok(HlsLivePoll::Ended);
        }
        let duration = if playlist.segments.len() == 0 {
            None
        } else {
            playlist.segments[0].duration
        };
        let duration = match duration {
            Some(d) => d,
            None => {
                self.next_reload_at = None;
                return Ok(HlsLivePoll::Exhausted);
            },
        };
        let wait = duration.min(self.limits.max_segment_wait);
        let started = match self.wait_started_at {
            Some(w) => w,
            None => now,
        };
        self.wait_started_at = Some(started);
        let deadline = match started.checked_add(wait) {
            Some(d) => d,
            None => Duration::max_value(),
        };
        if deadline.at_most(&now) {
            self.next_reload_at = None;
            return Ok(HlsLivePoll::Exhausted);
        }
        self.no_progress_reloads = self.no_progress_reloads.saturating_add(1);
        if self.no_progress_reloads > self.limits.max_no_progress_reloads {
            return Err(
                HlsError::LiveReloadLimitExceeded { limit: self.limits.max_no_progress_reloads },
            );
        }
        let next = match now.checked_add(self.limits.reload_interval) {
            Some(d) => d,
            None => Duration::max_value(),
        };
        let next = next.min(deadline);
        self.next_reload_at = Some(next);
        Ok(HlsLivePoll::WaitUntil(next))
    }
}

} // verus!

verus! {

// ---------------------------------------------------------------------------------------------
// Laws of live polling
// ---------------------------------------------------------------------------------------------

proof fn lemma_first_unretained(segments: Seq<SegmentView>, from: int, retained: Seq<Seq<char>>)
    ensures
        first_unretained(segments, from, retained) matches Some(i) ==> from <= i < segments.len()
            && 0 <= i && !retained.contains(segments[i].uri),
    decreases segments.len() - from,
{
    if 0 <= from < segments.len() && retained.contains(segments[from].uri) {
        lemma_first_unretained(segments, from + 1, retained);
    }
}

/// What a live poll decides before it reloads the playlist: a poll earlier than the previous
/// one is refused, a poll before the announced reload deadline waits for it (and records the
/// poll time), and otherwise the playlist must be reloaded (`None`), with the state unchanged.
pub open spec fn spec_before_reload(s: LiveView, now: int) -> (LiveView, Result<
    Option<PollView>,
    HlsErrorView,
>) {
    if s.last_poll_at is Some && now < s.last_poll_at->0 {
        (s, Err(HlsErrorView::InvalidPlaylist("live poll time moved backwards")))
    } else if s.next_reload_at is Some && now < s.next_reload_at->0 {
        (LiveView { last_poll_at: Some(now), ..s }, Ok(Some(PollView::WaitUntil(s.next_reload_at->0))))
    } else {
        (s, Ok(None))
    }
}

impl HlsLiveSequence {
    /// The decision taken before fetching a live playlist: refuse time moving backwards, wait
    /// for an announced reload deadline, or ask for a reload (`Ok(None)`), whose snapshot then
    /// goes to [`HlsLiveSequence::poll`].
    pub fn before_reload(&mut self, now: Duration) -> (result: Result<Option<HlsLivePoll>, HlsError>)
        ensures
            live_wf(final(self)@),
            final(self)@ == spec_before_reload(old(self)@, now@).0,
            match spec_before_reload(old(self)@, now@).1 {
                Ok(Some(v)) => result matches Ok(Some(r)) && r@ == v,
                Ok(None) => result matches Ok(None),
                Err(e) => result matches Err(r) && r@ == e,
            },
    {
        proof {
            use_type_invariant(&*self);
        }
        match self.last_poll_at {
            Some(previous) => {
                if now.less_than(&previous) {
                    return Err(HlsError::InvalidPlaylist("live poll time moved backwards"));
                }
            },
            None => {},
        }
        match self.next_reload_at {
            Some(t) => {
                if now.less_than(&t) {
                    self.last_poll_at = Some(now);
                    return Ok(Some(HlsLivePoll::WaitUntil(t)));
                }
            },
            None => {},
        }
        Ok(None)
    }

    /// The decision after a reload: a master playlist is refused and the state kept; a media
    /// playlist is polled.
    pub fn poll_reloaded(&mut self, playlist: &HlsPlaylist, now: Duration) -> (result: Result<
        HlsLivePoll,
        HlsError,
    >)
        ensures
            live_wf(final(self)@),
            match playlist@ {
                PlaylistView::Master(_) => final(self)@ == old(self)@ && (result matches Err(r) && r@
                    == HlsErrorView::InvalidPlaylist("live reload returned a master playlist")),
                PlaylistView::Media(m) => final(self)@ == spec_poll(old(self)@, m, now@).0 && (match spec_poll(
                    old(self)@,
                    m,
                    now@,
                ).1 {
                    Ok(v) => result matches Ok(r) && r@ == v,
                    Err(e) => result matches Err(r) && r@ == e,
                }),
            },
    {
        proof {
            use_type_invariant(&*self);
        }
        match playlist {
            HlsPlaylist::Master(_) => Err(HlsError::InvalidPlaylist("live reload returned a master playlist")),
            HlsPlaylist::Media(media) => self.poll(media, now),
        }
    }
}

/// Deciding before a reload and then polling the reloaded snapshot gives what a single poll of
/// that snapshot gives: the check before the fetch neither loses nor adds a result.
pub proof fn law_reload_then_poll_is_poll(s: LiveView, p: MediaView, now: int)
    ensures
        spec_before_reload(s, now).1 is Ok && spec_before_reload(s, now).1->Ok_0 is None
            ==> spec_poll(spec_before_reload(s, now).0, p, now) == spec_poll(s, p, now),
        spec_before_reload(s, now).1 is Err ==> spec_before_reload(s, now) == (
            spec_poll(s, p, now).0,
            Err::<Option<PollView>, HlsErrorView>(spec_poll(s, p, now).1->Err_0),
        ),
        spec_before_reload(s, now).1 matches Ok(Some(w)) ==> spec_before_reload(s, now).0
            == spec_poll(s, p, now).0 && spec_poll(s, p, now).1 == Ok::<PollView, HlsErrorView>(w),
{
}

/// A poll at a time earlier than the previous poll is refused and changes nothing.
pub proof fn law_poll_time_never_moves_backwards(s: LiveView, p: MediaView, now: int)
    requires
        s.last_poll_at matches Some(previous) && now < previous,
    ensures
        spec_poll(s, p, now).0 == s,
        spec_poll(s, p, now).1 == Err::<PollView, HlsErrorView>(
            HlsErrorView::InvalidPlaylist("live poll time moved backwards"),
        ),
{
}

/// Before a reload deadline that a poll announced, polling again returns that same deadline and
/// only records the time of the poll.
pub proof fn law_poll_waits_for_announced_deadline(s: LiveView, p: MediaView, now: int, deadline: int)
    requires
        s.next_reload_at == Some(deadline),
        now < deadline,
        s.last_poll_at matches Some(previous) ==> previous <= now,
    ensures
        spec_poll(s, p, now).1 == Ok::<PollView, HlsErrorView>(PollView::WaitUntil(deadline)),
        spec_poll(s, p, now).0 == (LiveView { last_poll_at: Some(now), ..s }),
{
}

/// Polling never lets the retained window of emitted URIs grow beyond its bound.
pub proof fn law_poll_keeps_retained_window_bounded(s: LiveView, p: MediaView, now: int)
    requires
        live_wf(s),
    ensures
        live_wf(spec_poll(s, p, now).0),
        spec_poll(s, p, now).0.limits == s.limits,
{
}

/// The state after a run of polls, each of a snapshot at a time, and the URIs of the segments
/// the run emitted, in order.
pub open spec fn spec_poll_run(s: LiveView, polls: Seq<(MediaView, int)>) -> (LiveView, Seq<Seq<char>>)
    decreases polls.len(),
{
    if polls.len() == 0 {
        (s, Seq::empty())
    } else {
        let (before, emitted) = spec_poll_run(s, polls.drop_last());
        let (after, outcome) = spec_poll(before, polls.last().0, polls.last().1);
        match outcome {
            Ok(PollView::Segment(seg)) => (after, emitted.push(seg.uri)),
            _ => (after, emitted),
        }
    }
}

/// The last `n` items of a sequence.
pub open spec fn take_last(q: Seq<Seq<char>>, n: int) -> Seq<Seq<char>> {
    q.subrange(q.len() - n, q.len() as int)
}

/// Over any history of polls, the retained window holds the newest URIs of those retained
/// before and emitted since, as many as the bound allows, so its size is the earlier size plus
/// the emitted count, capped at the bound; the last emitted URI is the newest one emitted. From
/// a new sequence, the window is the last `min(k, bound)` of the `k` URIs emitted, and the
/// identity bytes are theirs and the last one's.
#[verifier::spinoff_prover]
#[verifier::rlimit(60)]
pub proof fn law_poll_history_retains_newest_uris(s: LiveView, polls: Seq<(MediaView, int)>)
    requires
        live_wf(s),
    ensures
        ({
            let (t, emitted) = spec_poll_run(s, polls);
            let all = s.retained + emitted;
            let n = min_of(all.len() as int, s.limits.max_retained_segments as int);
            &&& live_wf(t)
            &&& t.limits == s.limits
            &&& t.retained == take_last(all, n)
            &&& t.retained.len() == min_of(
                (s.retained.len() + emitted.len()) as int,
                s.limits.max_retained_segments as int,
            )
            &&& t.last_uri == if emitted.len() > 0 {
                Some(emitted.last())
            } else {
                s.last_uri
            }
            &&& identity_bytes(t) == utf8_total(take_last(all, n)) + if emitted.len() > 0 {
                crate::route_util::utf8_len(emitted.last()) as int
            } else {
                match s.last_uri {
                    Some(u) => crate::route_util::utf8_len(u) as int,
                    None => 0,
                }
            }
        }),
    decreases polls.len(),
{
    if polls.len() == 0 {
        assert(s.retained + Seq::<Seq<char>>::empty() =~= s.retained);
        assert(take_last(s.retained, s.retained.len() as int) =~= s.retained);
    } else {
        law_poll_history_retains_newest_uris(s, polls.drop_last());
        let (before, emitted) = spec_poll_run(s, polls.drop_last());
        law_poll_keeps_retained_window_bounded(before, polls.last().0, polls.last().1);
        let (after, outcome) = spec_poll(before, polls.last().0, polls.last().1);
        let all = s.retained + emitted;
        let b = s.limits.max_retained_segments as int;
        let n = min_of(all.len() as int, b);
        match outcome {
            Ok(PollView::Segment(seg)) => {
                let u = seg.uri;
                law_poll_emits_unseen_segments(before, polls.last().0, polls.last().1);
                let all2 = s.retained + emitted.push(u);
                assert(all2 =~= all.push(u));
                let n2 = min_of(all2.len() as int, b);
                if before.retained.len() + 1 > b {
                    assert(after.retained =~= take_last(all2, n2));
                } else {
                    assert(after.retained =~= take_last(all2, n2));
                }
            },
            _ => {
                assert(after.retained == before.retained);
            },
        }
    }
}

/// From a new sequence, after any run of polls that emitted `k` segments, `retained_segments()`
/// is the smaller of `k` and the bound; the retained URIs are the last of those emitted, and the
/// identity bytes (which `retained_identity_capacity_bytes()` never reports less of) are theirs
/// and the last emitted one's, so nothing is counted before the first segment.
pub proof fn law_new_sequence_retains_smaller_of_emitted_and_bound(
    limits: HlsLiveLimits,
    polls: Seq<(MediaView, int)>,
)
    requires
        limits.spec_validate_error() is None,
    ensures
        ({
            let s = LiveView {
                limits,
                last_uri: None,
                retained: Seq::empty(),
                wait_started_at: None,
                next_reload_at: None,
                last_poll_at: None,
                no_progress_reloads: 0,
            };
            let (t, emitted) = spec_poll_run(s, polls);
            let k = emitted.len() as int;
            let n = min_of(k, limits.max_retained_segments as int);
            &&& t.retained.len() == n
            &&& t.retained == take_last(emitted, n)
            &&& identity_bytes(t) == utf8_total(take_last(emitted, n)) + if k > 0 {
                crate::route_util::utf8_len(emitted.last()) as int
            } else {
                0
            }
            &&& k == 0 ==> identity_bytes(t) == 0
        }),
{
    let s = LiveView {
        limits,
        last_uri: None,
        retained: Seq::empty(),
        wait_started_at: None,
        next_reload_at: None,
        last_poll_at: None,
        no_progress_reloads: 0,
    };
    law_poll_history_retains_newest_uris(s, polls);
    let (t, emitted) = spec_poll_run(s, polls);
    assert(s.retained + emitted =~= emitted);
    if emitted.len() == 0 {
        assert(take_last(emitted, 0) =~= Seq::<Seq<char>>::empty());
    }
}

/// An emitted segment is one whose URI was not retained; afterwards it is the last emitted URI
/// and the newest retained one.
pub proof fn law_poll_emits_unseen_segments(s: LiveView, p: MediaView, now: int)
    requires
        live_wf(s),
        spec_poll(s, p, now).1 matches Ok(PollView::Segment(_)),
    ensures
        ({
            let seg = spec_poll(s, p, now).1->Ok_0->Segment_0;
            let t = spec_poll(s, p, now).0;
            &&& !s.retained.contains(seg.uri)
            &&& p.segments.contains(seg)
            &&& t.last_uri == Some(seg.uri)
            &&& t.retained.len() > 0
            &&& t.retained.last() == seg.uri
        }),
{
    let start = live_start(s.last_uri, p.segments);
    lemma_first_unretained(p.segments, start, s.retained);
    let i = first_unretained(p.segments, start, s.retained)->0;
    assert(p.segments[i] == spec_poll(s, p, now).1->Ok_0->Segment_0);
}

} // verus!
