//! Bounded inspection of a Matroska/WebM (EBML) header and of an ADTS stream start: variable
//! length integers, elements and the few elements that decide the container, title and output
//! sample rate.
use vstd::prelude::*;

use crate::codec::{spec_adts_parse, AdtsConfig};
use crate::media::Container;
use crate::source::{spec_utf8_name, utf8_text};
use crate::text::string_from_chars;

verus! {

/// At most this many bytes of an EBML stream start are inspected.
pub const MAX_EBML_INSPECTION_BYTES: usize = 128 * 1024;

/// An ADTS header is searched for at most this many bytes into a stream.
pub const MAX_ADTS_SCAN_DISTANCE: usize = 1000;

// ---------------------------------------------------------------------------------------------
// Variable-length integers
// ---------------------------------------------------------------------------------------------

/// The byte width of a variable-length integer: one more than the leading zero bits of its
/// first byte (9 for a zero byte).
pub open spec fn vint_width(first: u8) -> int {
    if first >= 128 {
        1
    } else if first >= 64 {
        2
    } else if first >= 32 {
        3
    } else if first >= 16 {
        4
    } else if first >= 8 {
        5
    } else if first >= 4 {
        6
    } else if first >= 2 {
        7
    } else if first >= 1 {
        8
    } else {
        9
    }
}

/// The length marker bit of a first byte: `1 << (8 - width)`.
pub open spec fn vint_marker(width: int) -> int {
    if width == 1 {
        128
    } else if width == 2 {
        64
    } else if width == 3 {
        32
    } else if width == 4 {
        16
    } else if width == 5 {
        8
    } else if width == 6 {
        4
    } else if width == 7 {
        2
    } else {
        1
    }
}

/// The big-endian value of some bytes.
pub open spec fn be_value(bytes: Seq<u8>) -> nat
    decreases bytes.len(),
{
    if bytes.len() == 0 {
        0
    } else {
        be_value(bytes.drop_last()) * 256 + bytes.last() as nat
    }
}

pub open spec fn p256(n: nat) -> nat
    decreases n,
{
    if n == 0 {
        1
    } else {
        256 * p256((n - 1) as nat)
    }
}

pub open spec fn p128(n: nat) -> nat
    decreases n,
{
    if n == 0 {
        1
    } else {
        128 * p128((n - 1) as nat)
    }
}

pub proof fn lemma_be_value_bound(bytes: Seq<u8>)
    ensures
        be_value(bytes) < p256(bytes.len()),
    decreases bytes.len(),
{
    if bytes.len() > 0 {
        lemma_be_value_bound(bytes.drop_last());
    }
}

proof fn lemma_p256_mono(i: nat, j: nat)
    requires
        i <= j,
    ensures
        p256(i) <= p256(j),
    decreases j,
{
    if i < j {
        lemma_p256_mono(i, (j - 1) as nat);
    }
}

/// A variable-length integer at the start of some bytes and its width. An identifier keeps
/// its length marker; a size loses it, and a size with every value bit set (unknown) reads
/// as `u64::MAX`.
pub open spec fn spec_read_vint(bytes: Seq<u8>, retain_marker: bool) -> Option<(u64, int)> {
    if bytes.len() == 0 {
        None
    } else {
        let first = bytes[0];
        let width = vint_width(first);
        if width > 8 || bytes.len() < width {
            None
        } else {
            let head: u8 = if retain_marker {
                first
            } else {
                (first - vint_marker(width)) as u8
            };
            let value = be_value(bytes.take(width).update(0, head));
            if !retain_marker && value == p128(width as nat) - 1 {
                Some((u64::MAX, width))
            } else {
                Some((value as u64, width))
            }
        }
    }
}

pub fn read_vint(bytes: &[u8], retain_marker: bool) -> (result: Option<(u64, usize)>)
    ensures
        match spec_read_vint(bytes@, retain_marker) {
            None => result is None,
            Some((v, w)) => result == Some((v, w as usize)),
        },
{
    if bytes.len() == 0 {
        return None;
    }
    let first = bytes[0];
    let (width, marker): (usize, u8) = if first >= 128 {
        (1, 128)
    } else if first >= 64 {
        (2, 64)
    } else if first >= 32 {
        (3, 32)
    } else if first >= 16 {
        (4, 16)
    } else if first >= 8 {
        (5, 8)
    } else if first >= 4 {
        (6, 4)
    } else if first >= 2 {
        (7, 2)
    } else if first >= 1 {
        (8, 1)
    } else {
        return None;
    };
    if bytes.len() < width {
        return None;
    }
    let head: u8 = if retain_marker {
        first
    } else {
        first - marker
    };
    let mut value: u64 = head as u64;
    let mut i: usize = 1;
    proof {
        let s1 = bytes@.take(1).update(0, head);
        assert(s1.len() == 1);
        assert(s1.last() == head);
        assert(s1.drop_last() =~= Seq::<u8>::empty());
        assert(be_value(Seq::<u8>::empty()) == 0);
        assert(be_value(s1) == head as nat);
        reveal_with_fuel(p256, 9);
    }
    while i < width
        invariant
            1 <= i <= width <= 8,
            width <= bytes@.len(),
            value == be_value(bytes@.take(i as int).update(0, head)),
            value < p256(i as nat),
        decreases width - i,
    {
        proof {
            let next = bytes@.take(i + 1).update(0, head);
            assert(next.drop_last() =~= bytes@.take(i as int).update(0, head));
            assert(next.last() == bytes@[i as int]);
            lemma_p256_mono(i as nat, 7);
            reveal_with_fuel(p256, 9);
        }
        value = value * 256 + bytes[i] as u64;
        i = i + 1;
    }
    if !retain_marker {
        let unknown: u64 = match width {
            1 => 127,
            2 => 16383,
            3 => 2097151,
            4 => 268435455,
            5 => 34359738367,
            6 => 4398046511103,
            7 => 562949953421311,
            _ => 72057594037927935,
        };
        proof {
            reveal_with_fuel(p128, 9);
        }
        if value == unknown {
            return Some((u64::MAX, width));
        }
    }
    Some((value, width))
}

// ---------------------------------------------------------------------------------------------
// Elements
// ---------------------------------------------------------------------------------------------

/// The payload of an element as far as it is present, and whether all of it is.
pub struct EbmlElement {
    pub data: Vec<u8>,
    pub complete: bool,
}

pub struct ElementView {
    pub data: Seq<u8>,
    pub complete: bool,
}

impl View for EbmlElement {
    type V = ElementView;

    open spec fn view(&self) -> ElementView {
        ElementView { data: self.data@, complete: self.complete }
    }
}

/// The element at the start of some bytes: its identifier, its payload (cut at the end of the
/// bytes) and how many bytes it takes. `None` when a header is malformed or the element's end
/// overflows a `usize`.
pub open spec fn spec_read_element(bytes: Seq<u8>) -> Option<(u64, ElementView, int)> {
    match spec_read_vint(bytes, true) {
        None => None,
        Some((id, id_width)) => match spec_read_vint(bytes.skip(id_width), false) {
            None => None,
            Some((size, size_width)) => {
                let header = id_width + size_width;
                if header > bytes.len() {
                    None
                } else {
                    let payload = bytes.skip(header);
                    let taken: int = if size <= usize::MAX {
                        size as int
                    } else {
                        payload.len() as int
                    };
                    let available = if taken < payload.len() {
                        taken
                    } else {
                        payload.len() as int
                    };
                    let complete = size <= usize::MAX && size <= payload.len();
                    if header + taken > usize::MAX {
                        None
                    } else {
                        Some(
                            (
                                id,
                                ElementView { data: payload.take(available), complete },
                                header + taken,
                            ),
                        )
                    }
                }
            },
        },
    }
}

fn copy_bytes(bytes: &[u8], start: usize, end: usize) -> (copy: Vec<u8>)
    requires
        start <= end <= bytes@.len(),
    ensures
        copy@ == bytes@.subrange(start as int, end as int),
{
    let mut copy: Vec<u8> = Vec::new();
    let mut i = start;
    while i < end
        invariant
            start <= i <= end <= bytes@.len(),
            copy@ == bytes@.subrange(start as int, i as int),
        decreases end - i,
    {
        copy.push(bytes[i]);
        proof {
            assert(copy@ =~= bytes@.subrange(start as int, i + 1));
        }
        i = i + 1;
    }
    copy
}

pub fn read_element(bytes: &[u8]) -> (result: Option<(u64, EbmlElement, usize)>)
    ensures
        match spec_read_element(bytes@) {
            None => result is None,
            Some((id, e, consumed)) => result matches Some((rid, re, rc)) && rid == id && re@
                == e && rc == consumed,
        },
{
    let (id, id_width) = read_vint(bytes, true)?;
    let rest = copy_bytes(bytes, id_width, bytes.len());
    proof {
        assert(rest@ =~= bytes@.skip(id_width as int));
    }
    let (size, size_width) = read_vint(rest.as_slice(), false)?;
    let header = id_width + size_width;
    if header > bytes.len() {
        return None;
    }
    let payload_len = bytes.len() - header;
    let declared: Option<usize> = if size <= usize::MAX as u64 {
        Some(size as usize)
    } else {
        None
    };
    let taken = match declared {
        Some(d) => d,
        None => payload_len,
    };
    let available = if taken < payload_len {
        taken
    } else {
        payload_len
    };
    let complete = match declared {
        Some(d) => d <= payload_len,
        None => false,
    };
    let consumed = header.checked_add(taken)?;
    let data = copy_bytes(bytes, header, header + available);
    proof {
        assert(data@ =~= bytes@.skip(header as int).take(available as int));
    }
    Some((id, EbmlElement { data, complete }, consumed))
}

proof fn lemma_read_element_consumes(bytes: Seq<u8>)
    requires
        spec_read_element(bytes) is Some,
    ensures
        spec_read_element(bytes) matches Some((_, _, consumed)) && consumed >= 2,
{
}

/// The first element with an identifier among consecutive elements; `None` when none has it
/// or an element before it is malformed or runs past the end.
pub open spec fn spec_find_element(bytes: Seq<u8>, target: u64) -> Option<ElementView>
    decreases bytes.len(),
{
    if bytes.len() == 0 {
        None
    } else {
        match spec_read_element(bytes) {
            None => None,
            Some((id, e, consumed)) => if id == target {
                Some(e)
            } else if consumed > bytes.len() {
                None
            } else {
                spec_find_element(bytes.skip(consumed), target)
            },
        }
    }
}

pub fn find_element(bytes: &[u8], target: u64) -> (result: Option<EbmlElement>)
    ensures
        match spec_find_element(bytes@, target) {
            None => result is None,
            Some(e) => result matches Some(r) && r@ == e,
        },
{
    let mut rest: Vec<u8> = copy_bytes(bytes, 0, bytes.len());
    proof {
        assert(rest@ =~= bytes@);
    }
    loop
        invariant
            spec_find_element(bytes@, target) == spec_find_element(rest@, target),
        decreases rest@.len(),
    {
        if rest.len() == 0 {
            return None;
        }
        let (id, element, consumed) = read_element(rest.as_slice())?;
        if id == target {
            return Some(element);
        }
        if consumed > rest.len() {
            return None;
        }
        proof {
            lemma_read_element_consumes(rest@);
        }
        let next = copy_bytes(rest.as_slice(), consumed, rest.len());
        proof {
            assert(next@ =~= rest@.skip(consumed as int));
        }
        rest = next;
    }
}

/// A found element's payload is never longer than the bytes it was found in.
pub proof fn law_found_element_is_within_input(bytes: Seq<u8>, target: u64)
    ensures
        spec_find_element(bytes, target) matches Some(e) ==> e.data.len() <= bytes.len(),
    decreases bytes.len(),
{
    if bytes.len() > 0 {
        match spec_read_element(bytes) {
            None => {},
            Some((id, e, consumed)) => {
                if id != target && consumed <= bytes.len() {
                    lemma_read_element_consumes(bytes);
                    law_found_element_is_within_input(bytes.skip(consumed), target);
                }
            },
        }
    }
}

/// An unsigned integer element: 1 to 8 bytes, big-endian.
pub open spec fn spec_read_uint(bytes: Seq<u8>) -> Option<u64> {
    if bytes.len() == 0 || bytes.len() > 8 {
        None
    } else {
        Some(be_value(bytes) as u64)
    }
}

fn be_u64(bytes: &[u8]) -> (value: u64)
    requires
        bytes@.len() <= 8,
    ensures
        value == be_value(bytes@),
{
    let mut value: u64 = 0;
    let mut i: usize = 0;
    proof {
        assert(bytes@.take(0) =~= Seq::<u8>::empty());
        reveal_with_fuel(p256, 9);
    }
    while i < bytes.len()
        invariant
            i <= bytes@.len() <= 8,
            value == be_value(bytes@.take(i as int)),
            value < p256(i as nat),
        decreases bytes@.len() - i,
    {
        proof {
            assert(bytes@.take(i + 1).drop_last() =~= bytes@.take(i as int));
            lemma_p256_mono(i as nat, 7);
            reveal_with_fuel(p256, 9);
        }
        value = value * 256 + bytes[i] as u64;
        i = i + 1;
    }
    proof {
        assert(bytes@.take(i as int) =~= bytes@);
    }
    value
}

pub fn read_uint(bytes: &[u8]) -> (result: Option<u64>)
    ensures
        result == spec_read_uint(bytes@),
{
    if bytes.len() == 0 || bytes.len() > 8 {
        return None;
    }
    Some(be_u64(bytes))
}

/// The raw bits of a float element: 4 bytes are a single-precision value, 8 a double.
#[derive(Clone, Copy, Debug, PartialEq, Eq, Structural)]
pub enum EbmlFloat {
    Single(u32),
    Double(u64),
}

pub open spec fn spec_read_float(bytes: Seq<u8>) -> Option<EbmlFloat> {
    if bytes.len() == 4 {
        Some(EbmlFloat::Single(be_value(bytes) as u32))
    } else if bytes.len() == 8 {
        Some(EbmlFloat::Double(be_value(bytes) as u64))
    } else {
        None
    }
}

pub fn read_float_bits(bytes: &[u8]) -> (result: Option<EbmlFloat>)
    ensures
        result == spec_read_float(bytes@),
{
    if bytes.len() == 4 {
        let v = be_u64(bytes);
        proof {
            lemma_be_value_bound(bytes@);
            reveal_with_fuel(p256, 5);
        }
        Some(EbmlFloat::Single(v as u32))
    } else if bytes.len() == 8 {
        Some(EbmlFloat::Double(be_u64(bytes)))
    } else {
        None
    }
}

// ---------------------------------------------------------------------------------------------
// Tracks and metadata
// ---------------------------------------------------------------------------------------------

pub open spec fn child_uint(data: Seq<u8>, id: u64) -> Option<u64> {
    match spec_find_element(data, id) {
        Some(e) => spec_read_uint(e.data),
        None => None,
    }
}

/// The sampling frequency of a track entry: `Audio` (0xe1), then `SamplingFrequency` (0xb5;
/// `OutputSamplingFrequency` 0x78b5 takes its place when present).
pub open spec fn track_frequency(track: Seq<u8>) -> Option<EbmlFloat> {
    match spec_find_element(track, 0xe1) {
        None => None,
        Some(audio) => match spec_find_element(audio.data, 0x78b5) {
            None => None,
            Some(f) => spec_read_float(f.data),
        },
    }
}

/// The output sampling frequency of the default audio track among the track entries (0xae)
/// of a `Tracks` payload: the first audio track (type 2) whose default flag (0x88) is absent or
/// set wins; failing that, the first audio track; `None` when a track entry is malformed.
pub open spec fn spec_default_frequency(tracks: Seq<u8>, first_audio: Option<Option<EbmlFloat>>) -> Option<
    EbmlFloat,
>
    decreases tracks.len(),
{
    if tracks.len() == 0 {
        match first_audio {
            Some(f) => f,
            None => None,
        }
    } else {
        match spec_read_element(tracks) {
            None => None,
            Some((id, track, consumed)) => {
                let audio = id == 0xae && child_uint(track.data, 0x83) == Some(2u64);
                let is_default = match child_uint(track.data, 0x88) {
                    None => true,
                    Some(flag) => flag != 0,
                };
                if audio && is_default {
                    track_frequency(track.data)
                } else if consumed > tracks.len() {
                    None
                } else {
                    spec_default_frequency(
                        tracks.skip(consumed),
                        if audio && first_audio is None {
                            Some(track_frequency(track.data))
                        } else {
                            first_audio
                        },
                    )
                }
            },
        }
    }
}

fn find_uint(data: &[u8], id: u64) -> (result: Option<u64>)
    ensures
        result == child_uint(data@, id),
{
    match find_element(data, id) {
        Some(e) => read_uint(e.data.as_slice()),
        None => None,
    }
}

fn find_frequency(track: &[u8]) -> (result: Option<EbmlFloat>)
    ensures
        result == track_frequency(track@),
{
    let audio = find_element(track, 0xe1)?;
    let f = find_element(audio.data.as_slice(), 0x78b5)?;
    read_float_bits(f.data.as_slice())
}

pub fn default_audio_frequency(tracks: &[u8]) -> (result: Option<EbmlFloat>)
    ensures
        result == spec_default_frequency(tracks@, None),
{
    let mut rest: Vec<u8> = copy_bytes(tracks, 0, tracks.len());
    let mut first_audio: Option<Option<EbmlFloat>> = None;
    proof {
        assert(rest@ =~= tracks@);
    }
    loop
        invariant
            spec_default_frequency(tracks@, None) == spec_default_frequency(rest@, first_audio),
        decreases rest@.len(),
    {
        if rest.len() == 0 {
            return match first_audio {
                Some(f) => f,
                None => None,
            };
        }
        let (id, track, consumed) = read_element(rest.as_slice())?;
        let audio = id == 0xae && find_uint(track.data.as_slice(), 0x83) == Some(2u64);
        let is_default = match find_uint(track.data.as_slice(), 0x88) {
            None => true,
            Some(flag) => flag != 0,
        };
        if audio && is_default {
            return find_frequency(track.data.as_slice());
        }
        if consumed > rest.len() {
            return None;
        }
        if audio && first_audio.is_none() {
            first_audio = Some(find_frequency(track.data.as_slice()));
        }
        proof {
            lemma_read_element_consumes(rest@);
        }
        let next = copy_bytes(rest.as_slice(), consumed, rest.len());
        proof {
            assert(next@ =~= rest@.skip(consumed as int));
        }
        rest = next;
    }
}

/// What the start of an EBML stream says: its container, the segment title and the raw output
/// sampling frequency of its default audio track.
pub struct EbmlMetadata {
    pub container: Container,
    pub segment_title: Option<String>,
    pub frequency: Option<EbmlFloat>,
}

/// The container of an EBML header: a complete UTF-8 `DocType` (0x4282) of `webm` or
/// `matroska`.
pub open spec fn doc_container(header: ElementView) -> Option<Container> {
    match spec_find_element(header.data, 0x4282) {
        Some(d) => if d.complete && spec_utf8_name(d.data) == Some("webm"@) {
            Some(Container::WebM)
        } else if d.complete && spec_utf8_name(d.data) == Some("matroska"@) {
            Some(Container::Matroska)
        } else {
            None
        },
        None => None,
    }
}

/// The title of a segment: `Segment` (0x18538067), `Info` (0x1549a966), `Title` (0x7ba9),
/// complete, within the limit, non-empty UTF-8.
pub open spec fn segment_title(bytes: Seq<u8>, max: int) -> Option<Seq<char>> {
    match spec_find_element(bytes, 0x1853_8067) {
        None => None,
        Some(segment) => match spec_find_element(segment.data, 0x1549_a966) {
            None => None,
            Some(info) => match spec_find_element(info.data, 0x7ba9) {
                None => None,
                Some(title) => if title.complete && title.data.len() <= max {
                    match spec_utf8_name(title.data) {
                        Some(t) => if t.len() > 0 {
                            Some(t)
                        } else {
                            None
                        },
                        None => None,
                    }
                } else {
                    None
                },
            },
        },
    }
}

/// The default audio frequency of a segment's `Tracks` (0x1654ae6b).
pub open spec fn segment_frequency(bytes: Seq<u8>) -> Option<EbmlFloat> {
    match spec_find_element(bytes, 0x1853_8067) {
        None => None,
        Some(segment) => match spec_find_element(segment.data, 0x1654_ae6b) {
            None => None,
            Some(tracks) => spec_default_frequency(tracks.data, None),
        },
    }
}

/// Inspects the first bytes of a stream: `None` unless they start with an EBML header
/// (0x1a45dfa3) naming a WebM or Matroska document.
pub open spec fn spec_ebml_metadata(bytes: Seq<u8>, max: int) -> Option<(Container, Option<Seq<char>>, Option<EbmlFloat>)> {
    match spec_find_element(bytes, 0x1a45_dfa3) {
        None => None,
        Some(header) => match doc_container(header) {
            None => None,
            Some(container) => Some((container, segment_title(bytes, max), segment_frequency(bytes))),
        },
    }
}

fn utf8_is(bytes: &[u8], literal: &str) -> (result: bool)
    ensures
        result == (spec_utf8_name(bytes@) == Some(literal@)),
{
    match utf8_text(bytes) {
        Some(t) => crate::playlist::seq_equal(t.as_slice(), crate::text::chars_of(literal).as_slice()),
        None => false,
    }
}

fn find_title(bytes: &[u8], max: usize) -> (result: Option<String>)
    ensures
        crate::track::opt_text(result) == segment_title(bytes@, max as int),
{
    let segment = find_element(bytes, 0x1853_8067)?;
    let info = find_element(segment.data.as_slice(), 0x1549_a966)?;
    let title = find_element(info.data.as_slice(), 0x7ba9)?;
    if !title.complete || title.data.len() > max {
        return None;
    }
    let text = utf8_text(title.data.as_slice())?;
    if text.len() == 0 {
        return None;
    }
    Some(string_from_chars(text.as_slice()))
}

fn find_segment_frequency(bytes: &[u8]) -> (result: Option<EbmlFloat>)
    ensures
        result == segment_frequency(bytes@),
{
    let segment = find_element(bytes, 0x1853_8067)?;
    let tracks = find_element(segment.data.as_slice(), 0x1654_ae6b)?;
    default_audio_frequency(tracks.data.as_slice())
}

pub fn ebml_metadata(bytes: &[u8], max_metadata_string_bytes: usize) -> (result: Option<EbmlMetadata>)
    ensures
        match spec_ebml_metadata(bytes@, max_metadata_string_bytes as int) {
            None => result is None,
            Some((c, t, f)) => result matches Some(m) && m.container == c
                && crate::track::opt_text(m.segment_title) == t && m.frequency == f,
        },
{
    proof {
        reveal_strlit("webm");
        reveal_strlit("matroska");
    }
    let header = find_element(bytes, 0x1a45_dfa3)?;
    let doc = find_element(header.data.as_slice(), 0x4282)?;
    let container = if doc.complete && utf8_is(doc.data.as_slice(), "webm") {
        Container::WebM
    } else if doc.complete && utf8_is(doc.data.as_slice(), "matroska") {
        Container::Matroska
    } else {
        return None;
    };
    Some(
        EbmlMetadata {
            container,
            segment_title: find_title(bytes, max_metadata_string_bytes),
            frequency: find_segment_frequency(bytes),
        },
    )
}

// ---------------------------------------------------------------------------------------------
// ADTS stream start
// ---------------------------------------------------------------------------------------------

/// The first offset, among the first `scan_distance` seven-byte windows of the bytes, where a
/// valid ADTS header starts.
pub open spec fn adts_window_ok(bytes: Seq<u8>, offset: int) -> bool {
    spec_adts_parse(bytes.subrange(offset, offset + 7)) is Some
}

pub fn find_adts_header(bytes: &[u8], scan_distance: usize) -> (result: Option<(usize, AdtsConfig)>)
    ensures
        match result {
            Some((offset, config)) => offset < scan_distance && offset + 7 <= bytes@.len()
                && spec_adts_parse(bytes@.subrange(offset as int, offset + 7)) == Some(config)
                && forall|o: int| 0 <= o < offset ==> !#[trigger] adts_window_ok(bytes@, o),
            None => forall|o: int|
                0 <= o < scan_distance && o + 7 <= bytes@.len() ==> !#[trigger] adts_window_ok(
                    bytes@,
                    o,
                ),
        },
{
    let mut offset: usize = 0;
    while offset < scan_distance && bytes.len() >= 7 && offset <= bytes.len() - 7
        invariant
            forall|o: int| 0 <= o < offset ==> !#[trigger] adts_window_ok(bytes@, o),
        decreases scan_distance - offset,
    {
        let window = copy_bytes(bytes, offset, offset + 7);
        match AdtsConfig::parse(window.as_slice()) {
            Some(config) => {
                return Some((offset, config));
            },
            None => {},
        }
        offset = offset + 1;
    }
    None
}

} // verus!
