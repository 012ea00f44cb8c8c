use vstd::prelude::*;

use crate::niconico::{
    invalid_playlist, spec_valid_playback_url, validate_playback_url, NicoNicoPlaybackError,
    NicoNicoPlaybackErrorKind, NicoNicoSourceOptions,
};
use crate::playlist::{seq_equal, spec_resolve_http_reference};
use crate::route_util::{utf8_len, utf8_length};
use crate::text::{
    char_seqs, chars_of, copy_range, has_prefix, split_once, split_once_chars, string_from_chars,
    trim, trim_chars,
};

verus! {

// ---------------------------------------------------------------------------------------------
// Attribute lists
// ---------------------------------------------------------------------------------------------

/// The fields split off so far, the field being read, and whether a quote is open.
pub struct SplitState {
    pub fields: Seq<Seq<char>>,
    pub current: Seq<char>,
    pub quoted: bool,
}

/// One character of an attribute list: a quote toggles quoting, an unquoted comma ends a field.
pub open spec fn split_step(st: SplitState, c: char) -> SplitState {
    if c == '"' {
        SplitState { fields: st.fields, current: st.current.push(c), quoted: !st.quoted }
    } else if c == ',' && !st.quoted {
        SplitState { fields: st.fields.push(st.current), current: Seq::empty(), quoted: st.quoted }
    } else {
        SplitState { fields: st.fields, current: st.current.push(c), quoted: st.quoted }
    }
}

pub open spec fn split_prefix(s: Seq<char>, n: nat) -> SplitState
    decreases n,
{
    if n == 0 {
        SplitState { fields: Seq::empty(), current: Seq::empty(), quoted: false }
    } else {
        split_step(split_prefix(s, (n - 1) as nat), s[n - 1])
    }
}

/// The fields of an attribute list (commas inside quotes do not separate fields), and whether a
/// quote is left open at the end.
pub open spec fn attribute_fields(s: Seq<char>) -> (Seq<Seq<char>>, bool) {
    let st = split_prefix(s, s.len());
    (st.fields.push(st.current), st.quoted)
}

/// A value without its surrounding quotes, when it has them.
pub open spec fn unquote(value: Seq<char>) -> Seq<char> {
    if value.len() >= 2 && value[0] == '"' && value.last() == '"' {
        value.subrange(1, value.len() - 1)
    } else {
        value
    }
}

pub open spec fn has_name(attrs: Seq<(Seq<char>, Seq<char>)>, name: Seq<char>) -> bool {
    exists|j: int| 0 <= j < attrs.len() && (#[trigger] attrs[j]).0 == name
}

/// Adds one `NAME=value` field: the trimmed field must hold `=`, a non-empty new name, a value
/// of at most `max_value` bytes, and the list must be below `max_entries` attributes.
pub open spec fn attribute_step(
    attrs: Seq<(Seq<char>, Seq<char>)>,
    field: Seq<char>,
    max_entries: int,
    max_value: int,
) -> Option<Seq<(Seq<char>, Seq<char>)>> {
    match split_once(trim(field), '=') {
        None => None,
        Some((name, value)) => if attrs.len() >= max_entries || name.len() == 0 || utf8_len(value)
            > max_value || has_name(attrs, name) {
            None
        } else {
            Some(attrs.push((name, unquote(value))))
        },
    }
}

pub open spec fn attributes_fold(
    attrs: Seq<(Seq<char>, Seq<char>)>,
    fields: Seq<Seq<char>>,
    max_entries: int,
    max_value: int,
) -> Option<Seq<(Seq<char>, Seq<char>)>>
    decreases fields.len(),
{
    if fields.len() == 0 {
        Some(attrs)
    } else {
        match attribute_step(attrs, fields[0], max_entries, max_value) {
            None => None,
            Some(next) => attributes_fold(next, fields.drop_first(), max_entries, max_value),
        }
    }
}

/// The attributes of an HLS attribute list, in order, with distinct names; `None` when the list
/// is malformed.
pub open spec fn spec_parse_attributes(input: Seq<char>, options: NicoNicoSourceOptions) -> Option<
    Seq<(Seq<char>, Seq<char>)>,
> {
    let (fields, quoted) = attribute_fields(input);
    if quoted {
        None
    } else {
        attributes_fold(
            Seq::empty(),
            fields,
            options.max_playlist_entries as int,
            options.max_playlist_line_bytes as int,
        )
    }
}

pub open spec fn attrs_view(v: Seq<(Vec<char>, Vec<char>)>) -> Seq<(Seq<char>, Seq<char>)> {
    v.map_values(|p: (Vec<char>, Vec<char>)| (p.0@, p.1@))
}

/// The value of the first attribute named `name`.
pub open spec fn attr_value(attrs: Seq<(Seq<char>, Seq<char>)>, name: Seq<char>) -> Option<
    Seq<char>,
>
    decreases attrs.len(),
{
    if attrs.len() == 0 {
        None
    } else if attrs[0].0 == name {
        Some(attrs[0].1)
    } else {
        attr_value(attrs.drop_first(), name)
    }
}

fn has_attribute(attrs: &Vec<(Vec<char>, Vec<char>)>, name: &[char]) -> (result: bool)
    ensures
        result == has_name(attrs_view(attrs@), name@),
{
    let mut i: usize = 0;
    while i < attrs.len()
        invariant
            i <= attrs@.len(),
            forall|j: int| 0 <= j < i ==> (#[trigger] attrs_view(attrs@)[j]).0 != name@,
        decreases attrs@.len() - i,
    {
        if seq_equal(attrs[i].0.as_slice(), name) {
            assert(attrs_view(attrs@)[i as int].0 == name@);
            return true;
        }
        i = i + 1;
    }
    false
}

fn unquote_chars(value: &[char]) -> (result: Vec<char>)
    ensures
        result@ == unquote(value@),
{
    if value.len() >= 2 && value[0] == '"' && value[value.len() - 1] == '"' {
        copy_range(value, 1, value.len() - 1)
    } else {
        copy_range(value, 0, value.len())
    }
}

fn add_attribute(
    attrs: &mut Vec<(Vec<char>, Vec<char>)>,
    field: &[char],
    options: &NicoNicoSourceOptions,
) -> (result: Result<(), NicoNicoPlaybackError>)
    ensures
        match attribute_step(
            attrs_view(old(attrs)@),
            field@,
            options.max_playlist_entries as int,
            options.max_playlist_line_bytes as int,
        ) {
            Some(a) => result is Ok && attrs_view(final(attrs)@) == a,
            None => result matches Err(e) && e.spec_kind()
                == NicoNicoPlaybackErrorKind::InvalidPlaylist,
        },
{
    let trimmed = trim_chars(field);
    let (name, value) = match split_once_chars(trimmed.as_slice(), '=') {
        Some(p) => p,
        None => {
            return Err(invalid_playlist());
        },
    };
    if attrs.len() >= options.max_playlist_entries || name.len() == 0 || utf8_length(
        value.as_slice(),
    ) > options.max_playlist_line_bytes {
        return Err(invalid_playlist());
    }
    if has_attribute(attrs, name.as_slice()) {
        return Err(invalid_playlist());
    }
    let unquoted = unquote_chars(value.as_slice());
    let ghost before = attrs_view(attrs@);
    let ghost entry = (name@, unquoted@);
    attrs.push((name, unquoted));
    proof {
        assert(attrs_view(attrs@) =~= before.push(entry));
    }
    Ok(())
}

/// Parses an HLS attribute list into its attributes, in order.
pub fn parse_attributes(input: &[char], options: &NicoNicoSourceOptions) -> (result: Result<
    Vec<(Vec<char>, Vec<char>)>,
    NicoNicoPlaybackError,
>)
    ensures
        match spec_parse_attributes(input@, *options) {
            Some(a) => result matches Ok(v) && attrs_view(v@) == a,
            None => result matches Err(e) && e.spec_kind()
                == NicoNicoPlaybackErrorKind::InvalidPlaylist,
        },
{
    let mut fields: Vec<Vec<char>> = Vec::new();
    let mut current: Vec<char> = Vec::new();
    let mut quoted = false;
    let mut i: usize = 0;
    proof {
        assert(char_seqs(fields@) =~= Seq::<Seq<char>>::empty());
    }
    while i < input.len()
        invariant
            i <= input@.len(),
            split_prefix(input@, i as nat) == (SplitState {
                fields: char_seqs(fields@),
                current: current@,
                quoted,
            }),
        decreases input@.len() - i,
    {
        let c = input[i];
        let ghost before = char_seqs(fields@);
        if c == '"' {
            current.push(c);
            quoted = !quoted;
        } else if c == ',' && !quoted {
            let ghost field = current@;
            fields.push(current);
            current = Vec::new();
            proof {
                assert(char_seqs(fields@) =~= before.push(field));
            }
        } else {
            current.push(c);
        }
        proof {
            assert(current@ =~= split_prefix(input@, (i + 1) as nat).current);
        }
        i = i + 1;
    }
    let ghost before = char_seqs(fields@);
    let ghost last = current@;
    fields.push(current);
    proof {
        assert(char_seqs(fields@) =~= before.push(last));
    }
    if quoted {
        return Err(invalid_playlist());
    }
    let ghost all = char_seqs(fields@);
    let mut attrs: Vec<(Vec<char>, Vec<char>)> = Vec::new();
    let mut k: usize = 0;
    proof {
        assert(all.skip(0) =~= all);
        assert(attrs_view(attrs@) =~= Seq::<(Seq<char>, Seq<char>)>::empty());
    }
    while k < fields.len()
        invariant
            k <= fields@.len(),
            all == char_seqs(fields@),
            spec_parse_attributes(input@, *options) == attributes_fold(
                attrs_view(attrs@),
                all.skip(k as int),
                options.max_playlist_entries as int,
                options.max_playlist_line_bytes as int,
            ),
        decreases fields@.len() - k,
    {
        proof {
            assert(all.skip(k as int)[0] == fields@[k as int]@);
            assert(all.skip(k as int).drop_first() =~= all.skip(k + 1));
        }
        add_attribute(&mut attrs, fields[k].as_slice(), options)?;
        k = k + 1;
    }
    proof {
        assert(all.skip(k as int) =~= Seq::<Seq<char>>::empty());
    }
    Ok(attrs)
}

/// The value of the first attribute named `name`, copied.
pub fn attribute(attrs: &Vec<(Vec<char>, Vec<char>)>, name: &str) -> (result: Option<Vec<char>>)
    ensures
        crate::uri::opt_chars_view(result) == attr_value(attrs_view(attrs@), name@),
{
    let key = chars_of(name);
    let mut i: usize = 0;
    proof {
        assert(attrs_view(attrs@).skip(0) =~= attrs_view(attrs@));
    }
    while i < attrs.len()
        invariant
            i <= attrs@.len(),
            key@ == name@,
            attr_value(attrs_view(attrs@), name@) == attr_value(
                attrs_view(attrs@).skip(i as int),
                name@,
            ),
        decreases attrs@.len() - i,
    {
        proof {
            assert(attrs_view(attrs@).skip(i as int).drop_first() =~= attrs_view(attrs@).skip(
                i + 1,
            ));
        }
        if seq_equal(attrs[i].0.as_slice(), key.as_slice()) {
            let v = copy_range(attrs[i].1.as_slice(), 0, attrs[i].1.len());
            proof {
                assert(v@ =~= attrs@[i as int].1@);
            }
            return Some(v);
        }
        i = i + 1;
    }
    None
}

// ---------------------------------------------------------------------------------------------
// Initialization vectors
// ---------------------------------------------------------------------------------------------

pub open spec fn hex_digit(c: char) -> Option<nat> {
    if '0' <= c && c <= '9' {
        Some((c as nat - '0' as nat) as nat)
    } else if 'a' <= c && c <= 'f' {
        Some((c as nat - 'a' as nat + 10) as nat)
    } else if 'A' <= c && c <= 'F' {
        Some((c as nat - 'A' as nat + 10) as nat)
    } else {
        None
    }
}

/// A two-character hexadecimal byte as `u8::from_str_radix(_, 16)` reads it: two digits, or a
/// `+` sign and one digit.
pub open spec fn hex_pair(a: char, b: char) -> Option<u8> {
    if a == '+' {
        match hex_digit(b) {
            Some(d) => Some(d as u8),
            None => None,
        }
    } else {
        match (hex_digit(a), hex_digit(b)) {
            (Some(x), Some(y)) => Some((16 * x + y) as u8),
            _ => None,
        }
    }
}

pub open spec fn is_ascii(c: char) -> bool {
    (c as u32) < 128
}

pub open spec fn all_ascii(s: Seq<char>) -> bool {
    forall|i: int| 0 <= i < s.len() ==> is_ascii(#[trigger] s[i])
}

/// The 32 ASCII characters after a `0x` or `0X` prefix.
pub open spec fn iv_hex(value: Seq<char>) -> Option<Seq<char>> {
    if (has_prefix(value, "0x"@) || has_prefix(value, "0X"@)) && value.skip(2).len() == 32
        && all_ascii(value.skip(2)) {
        Some(value.skip(2))
    } else {
        None
    }
}

/// An `IV` attribute: `0x` and 32 hexadecimal digits, read as 16 bytes in order. Text whose
/// byte pairs would split a character is rejected.
pub open spec fn spec_parse_iv(value: Seq<char>) -> Option<Seq<u8>> {
    match iv_hex(value) {
        None => None,
        Some(h) => if forall|k: int| 0 <= k < 16 ==> (#[trigger] hex_pair(h[2 * k], h[2 * k + 1])) is Some {
            Some(Seq::new(16, |k: int| hex_pair(h[2 * k], h[2 * k + 1])->0))
        } else {
            None
        },
    }
}

fn hex_digit_value(c: char) -> (d: Option<u8>)
    ensures
        match hex_digit(c) {
            Some(x) => d == Some(x as u8) && x < 16,
            None => d is None,
        },
{
    if '0' <= c && c <= '9' {
        Some((c as u32 - '0' as u32) as u8)
    } else if 'a' <= c && c <= 'f' {
        Some((c as u32 - 'a' as u32 + 10) as u8)
    } else if 'A' <= c && c <= 'F' {
        Some((c as u32 - 'A' as u32 + 10) as u8)
    } else {
        None
    }
}

fn parse_hex_pair(a: char, b: char) -> (result: Option<u8>)
    ensures
        result == hex_pair(a, b),
{
    if a == '+' {
        return hex_digit_value(b);
    }
    match (hex_digit_value(a), hex_digit_value(b)) {
        (Some(x), Some(y)) => Some(16 * x + y),
        _ => None,
    }
}

/// Parses an `IV` attribute into its 16 bytes.
pub fn parse_iv(value: &[char]) -> (result: Result<Vec<u8>, NicoNicoPlaybackError>)
    ensures
        match spec_parse_iv(value@) {
            Some(iv) => result matches Ok(v) && v@ == iv,
            None => result matches Err(e) && e.spec_kind()
                == NicoNicoPlaybackErrorKind::InvalidPlaylist,
        },
{
    proof {
        reveal_strlit("0x");
        reveal_strlit("0X");
    }
    if !(starts_with_text(value, "0x") || starts_with_text(value, "0X")) {
        return Err(invalid_playlist());
    }
    let hex = copy_range(value, 2, value.len());
    proof {
        assert(hex@ =~= value@.skip(2));
    }
    if hex.len() != 32 {
        return Err(invalid_playlist());
    }
    let mut a: usize = 0;
    while a < hex.len()
        invariant
            a <= hex@.len(),
            hex@.len() == 32,
            hex@ == value@.skip(2),
            has_prefix(value@, "0x"@) || has_prefix(value@, "0X"@),
            forall|j: int| 0 <= j < a ==> is_ascii(#[trigger] hex@[j]),
        decreases hex@.len() - a,
    {
        if !((hex[a] as u32) < 128) {
            assert(!is_ascii(hex@[a as int]));
            return Err(invalid_playlist());
        }
        a = a + 1;
    }
    let mut out: Vec<u8> = Vec::new();
    let mut k: usize = 0;
    while k < 16
        invariant
            k <= 16,
            hex@.len() == 32,
            iv_hex(value@) == Some(hex@),
            out@.len() == k,
            forall|j: int| 0 <= j < k ==> (#[trigger] hex_pair(hex@[2 * j], hex@[2 * j + 1])) == Some(
                out@[j],
            ),
        decreases 16 - k,
    {
        match parse_hex_pair(hex[2 * k], hex[2 * k + 1]) {
            Some(b) => out.push(b),
            None => {
                return Err(invalid_playlist());
            },
        }
        k = k + 1;
    }
    proof {
        let h = hex@;
        assert(out@ =~= Seq::new(16, |k: int| hex_pair(h[2 * k], h[2 * k + 1])->0));
    }
    Ok(out)
}

fn starts_with_text(value: &[char], prefix: &str) -> (result: bool)
    ensures
        result == has_prefix(value@, prefix@),
{
    crate::text::starts_with(value, chars_of(prefix).as_slice())
}

/// Byte `shift / 8` of `value`, counting from the least significant.
pub open spec fn byte_of(value: u64, shift: u64) -> u8 {
    ((value >> shift) & 0xff) as u8
}

/// The implicit IV of a media sequence number: eight zero bytes, then the number big-endian.
pub open spec fn spec_sequence_iv(sequence: u64) -> Seq<u8> {
    seq![
        0u8,
        0u8,
        0u8,
        0u8,
        0u8,
        0u8,
        0u8,
        0u8,
        byte_of(sequence, 56),
        byte_of(sequence, 48),
        byte_of(sequence, 40),
        byte_of(sequence, 32),
        byte_of(sequence, 24),
        byte_of(sequence, 16),
        byte_of(sequence, 8),
        byte_of(sequence, 0),
    ]
}

/// Distinct media sequence numbers get distinct implicit IVs.
pub proof fn law_sequence_iv_is_injective(a: u64, b: u64)
    requires
        spec_sequence_iv(a) == spec_sequence_iv(b),
    ensures
        a == b,
{
    let ia = spec_sequence_iv(a);
    let ib = spec_sequence_iv(b);
    assert(ia[8] == ib[8] && ia[9] == ib[9] && ia[10] == ib[10] && ia[11] == ib[11] && ia[12]
        == ib[12] && ia[13] == ib[13] && ia[14] == ib[14] && ia[15] == ib[15]);
    assert(a == b) by (bit_vector)
        requires
            ((a >> 56u64) & 0xff) as u8 == ((b >> 56u64) & 0xff) as u8,
            ((a >> 48u64) & 0xff) as u8 == ((b >> 48u64) & 0xff) as u8,
            ((a >> 40u64) & 0xff) as u8 == ((b >> 40u64) & 0xff) as u8,
            ((a >> 32u64) & 0xff) as u8 == ((b >> 32u64) & 0xff) as u8,
            ((a >> 24u64) & 0xff) as u8 == ((b >> 24u64) & 0xff) as u8,
            ((a >> 16u64) & 0xff) as u8 == ((b >> 16u64) & 0xff) as u8,
            ((a >> 8u64) & 0xff) as u8 == ((b >> 8u64) & 0xff) as u8,
            ((a >> 0u64) & 0xff) as u8 == ((b >> 0u64) & 0xff) as u8,
    ;
}

fn byte_at(value: u64, shift: u64) -> (b: u8)
    requires
        shift < 64,
    ensures
        b == byte_of(value, shift),
{
    ((value >> shift) & 0xff) as u8
}

/// Places the media sequence number in the low 64 bits of a 16-byte IV.
pub fn sequence_iv(sequence: u64) -> (iv: [u8; 16])
    ensures
        iv@ == spec_sequence_iv(sequence),
{
    let iv = [
        0u8,
        0u8,
        0u8,
        0u8,
        0u8,
        0u8,
        0u8,
        0u8,
        byte_at(sequence, 56),
        byte_at(sequence, 48),
        byte_at(sequence, 40),
        byte_at(sequence, 32),
        byte_at(sequence, 24),
        byte_at(sequence, 16),
        byte_at(sequence, 8),
        byte_at(sequence, 0),
    ];
    proof {
        assert(iv@ =~= spec_sequence_iv(sequence));
    }
    iv
}

fn sequence_iv_bytes(sequence: u64) -> (iv: Vec<u8>)
    ensures
        iv@ == spec_sequence_iv(sequence),
{
    let bytes = sequence_iv(sequence);
    let mut out: Vec<u8> = Vec::new();
    let mut i: usize = 0;
    while i < 16
        invariant
            i <= 16,
            bytes@ == spec_sequence_iv(sequence),
            out@ == bytes@.take(i as int),
        decreases 16 - i,
    {
        out.push(bytes[i]);
        proof {
            assert(bytes@.take(i + 1) =~= bytes@.take(i as int).push(bytes@[i as int]));
        }
        i = i + 1;
    }
    proof {
        assert(bytes@.take(16) =~= bytes@);
    }
    out
}

} // verus!

verus! {

// ---------------------------------------------------------------------------------------------
// Playlist text
// ---------------------------------------------------------------------------------------------

/// Every newline-separated piece from `i` on is at most `limit` bytes long, a carriage return
/// included.
pub open spec fn pieces_within(b: Seq<u8>, i: int, limit: int) -> bool
    decreases b.len() - i,
{
    if i < 0 || i > b.len() {
        true
    } else {
        let e = crate::playlist::next_byte_newline(b, i);
        proof {
            crate::playlist::lemma_next_byte_newline(b, i);
        }
        if e - i > limit {
            false
        } else if e >= b.len() {
            true
        } else {
            pieces_within(b, e + 1, limit)
        }
    }
}

/// A bounded media playlist: within the byte and line limits, valid UTF-8, starting `#EXTM3U`.
pub open spec fn spec_playlist_text(bytes: Seq<u8>, options: NicoNicoSourceOptions) -> Option<
    Seq<char>,
> {
    if bytes.len() > options.max_playlist_bytes || !pieces_within(
        bytes,
        0,
        options.max_playlist_line_bytes as int,
    ) {
        None
    } else {
        match crate::source::spec_utf8_name(bytes) {
            None => None,
            Some(t) => if has_prefix(t, "#EXTM3U"@) {
                Some(t)
            } else {
                None
            },
        }
    }
}

fn pieces_fit(bytes: &[u8], limit: usize) -> (result: bool)
    ensures
        result == pieces_within(bytes@, 0, limit as int),
{
    let n = bytes.len();
    let mut i: usize = 0;
    loop
        invariant
            i <= n == bytes@.len(),
            pieces_within(bytes@, 0, limit as int) == pieces_within(bytes@, i as int, limit as int),
        decreases n - i,
    {
        proof {
            crate::playlist::lemma_next_byte_newline(bytes@, i as int);
        }
        let mut e = i;
        while e < n && bytes[e] != 10
            invariant
                i <= e <= n == bytes@.len(),
                crate::playlist::next_byte_newline(bytes@, i as int)
                    == crate::playlist::next_byte_newline(bytes@, e as int),
            decreases n - e,
        {
            e = e + 1;
        }
        if e - i > limit {
            return false;
        }
        if e >= n {
            return true;
        }
        i = e + 1;
    }
}

/// Decodes a bounded media playlist.
pub fn playlist_text(bytes: &[u8], options: &NicoNicoSourceOptions) -> (result: Result<
    Vec<char>,
    NicoNicoPlaybackError,
>)
    ensures
        match spec_playlist_text(bytes@, *options) {
            Some(t) => result matches Ok(v) && v@ == t,
            None => result matches Err(e) && e.spec_kind()
                == NicoNicoPlaybackErrorKind::InvalidPlaylist,
        },
{
    if bytes.len() as u64 > options.max_playlist_bytes || !pieces_fit(
        bytes,
        options.max_playlist_line_bytes,
    ) {
        return Err(invalid_playlist());
    }
    let text = match crate::source::utf8_text(bytes) {
        Some(t) => t,
        None => {
            return Err(invalid_playlist());
        },
    };
    if !starts_with_text(text.as_slice(), "#EXTM3U") {
        return Err(invalid_playlist());
    }
    Ok(text)
}

// ---------------------------------------------------------------------------------------------
// Reference resolution
// ---------------------------------------------------------------------------------------------

/// A playlist reference resolved against the playlist URL, bounded and valid for the playback
/// scheme.
pub open spec fn spec_resolve_and_validate(
    base: Seq<char>,
    reference: Seq<char>,
    options: NicoNicoSourceOptions,
) -> Option<Seq<char>> {
    match spec_resolve_http_reference(base, reference) {
        Err(_) => None,
        Ok(t) => if utf8_len(t) > options.max_playback_url_bytes || !spec_valid_playback_url(
            t,
            options.playback_scheme,
        ) {
            None
        } else {
            Some(t)
        },
    }
}

pub fn resolve_and_validate(base: &str, reference: &[char], options: &NicoNicoSourceOptions) -> (result:
    Result<String, NicoNicoPlaybackError>)
    ensures
        match spec_resolve_and_validate(base@, reference@, *options) {
            Some(t) => result matches Ok(s) && s@ == t,
            None => result matches Err(e) && e.spec_kind()
                == NicoNicoPlaybackErrorKind::InvalidPlaylist,
        },
{
    let reference_text = string_from_chars(reference);
    let resolved = match crate::playlist::resolve_http_reference(base, reference_text.as_str()) {
        Ok(r) => r,
        Err(_) => {
            return Err(invalid_playlist());
        },
    };
    if utf8_length(chars_of(resolved.as_str()).as_slice()) > options.max_playback_url_bytes {
        return Err(invalid_playlist());
    }
    if validate_playback_url(resolved.as_str(), options.playback_scheme).is_err() {
        return Err(invalid_playlist());
    }
    Ok(resolved)
}

// ---------------------------------------------------------------------------------------------
// Master playlists
// ---------------------------------------------------------------------------------------------

/// `s` with every leading repetition of `p` removed, as `str::trim_start_matches` does.
pub open spec fn strip_all(s: Seq<char>, p: Seq<char>) -> Seq<char>
    decreases s.len(),
{
    if p.len() > 0 && has_prefix(s, p) {
        strip_all(s.skip(p.len() as int), p)
    } else {
        s
    }
}

/// Some line, with leading whitespace removed, is a segment duration tag.
pub open spec fn has_extinf(ls: Seq<Seq<char>>) -> bool {
    exists|i: int| 0 <= i < ls.len() && has_prefix(crate::text::trim_start(#[trigger] ls[i]), "#EXTINF:"@)
}

/// Scans the `#EXT-X-MEDIA` renditions of a master playlist: the first audio rendition of the
/// requested group is chosen, otherwise the first audio rendition with a URI. `None` when the
/// scan fails or finds nothing.
pub open spec fn master_fold(
    fallback: Option<Seq<char>>,
    entries: int,
    ls: Seq<Seq<char>>,
    base: Seq<char>,
    audio_id: Seq<char>,
    options: NicoNicoSourceOptions,
) -> Option<Seq<char>>
    decreases ls.len(),
{
    if ls.len() == 0 {
        fallback
    } else if !has_prefix(ls[0], "#EXT-X-MEDIA:"@) {
        master_fold(fallback, entries, ls.drop_first(), base, audio_id, options)
    } else if entries + 1 > options.max_playlist_entries {
        None
    } else {
        match spec_parse_attributes(strip_all(ls[0], "#EXT-X-MEDIA:"@), options) {
            None => None,
            Some(attrs) => if attr_value(attrs, "TYPE"@) != Some("AUDIO"@) {
                master_fold(fallback, entries + 1, ls.drop_first(), base, audio_id, options)
            } else {
                match attr_value(attrs, "URI"@) {
                    None => master_fold(
                        fallback,
                        entries + 1,
                        ls.drop_first(),
                        base,
                        audio_id,
                        options,
                    ),
                    Some(uri) => match spec_resolve_and_validate(base, uri, options) {
                        None => None,
                        Some(resolved) => if attr_value(attrs, "GROUP-ID"@) == Some(audio_id) {
                            Some(resolved)
                        } else {
                            master_fold(
                                if fallback is None {
                                    Some(resolved)
                                } else {
                                    fallback
                                },
                                entries + 1,
                                ls.drop_first(),
                                base,
                                audio_id,
                                options,
                            )
                        },
                    },
                }
            },
        }
    }
}

/// The audio playlist URL of a playback URL: the URL itself when it already is a media
/// playlist, otherwise the chosen audio rendition of the master playlist.
pub open spec fn spec_master_audio_url(
    base: Seq<char>,
    bytes: Seq<u8>,
    audio_id: Seq<char>,
    options: NicoNicoSourceOptions,
) -> Option<Seq<char>> {
    match spec_playlist_text(bytes, options) {
        None => None,
        Some(text) => if has_extinf(crate::text::lines(text)) {
            Some(base)
        } else {
            master_fold(None, 0, crate::text::lines(text), base, audio_id, options)
        },
    }
}

fn trimmed_start_has_prefix(s: &[char], p: &str) -> (result: bool)
    ensures
        result == has_prefix(crate::text::trim_start(s@), p@),
{
    let mut k: usize = 0;
    while k < s.len() && crate::text::is_space_char(s[k])
        invariant
            k <= s@.len(),
            forall|j: int| 0 <= j < k ==> crate::text::is_space(#[trigger] s@[j]),
        decreases s@.len() - k,
    {
        k = k + 1;
    }
    proof {
        crate::text::lemma_trim_start_skip(s@, k as int);
        let rest = s@.skip(k as int);
        if rest.len() > 0 {
            assert(rest[0] == s@[k as int]);
        }
        assert(crate::text::trim_start(rest) == rest);
    }
    let rest = copy_range(s, k, s.len());
    proof {
        assert(rest@ =~= s@.skip(k as int));
    }
    starts_with_text(rest.as_slice(), p)
}

fn strip_all_prefix(s: &[char], p: &str) -> (result: Vec<char>)
    ensures
        result@ == strip_all(s@, p@),
{
    let prefix = chars_of(p);
    let mut t = copy_range(s, 0, s.len());
    proof {
        assert(t@ =~= s@);
    }
    while prefix.len() > 0 && crate::text::starts_with(t.as_slice(), prefix.as_slice())
        invariant
            prefix@ == p@,
            strip_all(s@, p@) == strip_all(t@, p@),
        decreases t@.len(),
    {
        let next = copy_range(t.as_slice(), prefix.len(), t.len());
        proof {
            assert(next@ =~= t@.skip(p@.len() as int));
        }
        t = next;
    }
    t
}

/// Chooses the audio playlist URL from the playlist fetched at a playback URL.
pub fn parse_master_audio_url(
    base: &str,
    bytes: &[u8],
    audio_id: &str,
    options: &NicoNicoSourceOptions,
) -> (result: Result<String, NicoNicoPlaybackError>)
    ensures
        match spec_master_audio_url(base@, bytes@, audio_id@, *options) {
            Some(t) => result matches Ok(s) && s@ == t,
            None => result matches Err(e) && e.spec_kind()
                == NicoNicoPlaybackErrorKind::InvalidPlaylist,
        },
{
    let text = playlist_text(bytes, options)?;
    let lines = crate::text::split_lines(text.as_slice());
    let ghost ls = char_seqs(lines@);
    let mut i: usize = 0;
    while i < lines.len()
        invariant
            i <= lines@.len(),
            ls == char_seqs(lines@),
            ls == crate::text::lines(text@),
            spec_playlist_text(bytes@, *options) == Some(text@),
            forall|j: int| 0 <= j < i ==> !has_prefix(crate::text::trim_start(#[trigger] ls[j]), "#EXTINF:"@),
        decreases lines@.len() - i,
    {
        if trimmed_start_has_prefix(lines[i].as_slice(), "#EXTINF:") {
            proof {
                assert(ls[i as int] == lines@[i as int]@);
                assert(has_extinf(ls));
            }
            return Ok(string_from_chars(chars_of(base).as_slice()));
        }
        proof {
            assert(ls[i as int] == lines@[i as int]@);
        }
        i = i + 1;
    }
    let mut fallback: Option<String> = None;
    let mut entries: usize = 0;
    let mut k: usize = 0;
    proof {
        assert(ls.skip(0) =~= ls);
    }
    while k < lines.len()
        invariant
            k <= lines@.len(),
            ls == char_seqs(lines@),
            !has_extinf(ls),
            entries <= options.max_playlist_entries,
            spec_master_audio_url(base@, bytes@, audio_id@, *options) == master_fold(
                crate::playlist::opt_string_seq(fallback),
                entries as int,
                ls.skip(k as int),
                base@,
                audio_id@,
                *options,
            ),
        decreases lines@.len() - k,
    {
        proof {
            assert(ls.skip(k as int)[0] == lines@[k as int]@);
            assert(ls.skip(k as int).drop_first() =~= ls.skip(k + 1));
        }
        let line = &lines[k];
        if !starts_with_text(line.as_slice(), "#EXT-X-MEDIA:") {
            k = k + 1;
            continue;
        }
        if entries >= options.max_playlist_entries {
            return Err(invalid_playlist());
        }
        entries = entries + 1;
        let body = strip_all_prefix(line.as_slice(), "#EXT-X-MEDIA:");
        let attrs = parse_attributes(body.as_slice(), options)?;
        let kind = attribute(&attrs, "TYPE");
        let is_audio = match &kind {
            Some(t) => seq_equal(t.as_slice(), chars_of("AUDIO").as_slice()),
            None => false,
        };
        if !is_audio {
            k = k + 1;
            continue;
        }
        let uri = match attribute(&attrs, "URI") {
            Some(u) => u,
            None => {
                k = k + 1;
                continue;
            },
        };
        let resolved = resolve_and_validate(base, uri.as_slice(), options)?;
        let group = attribute(&attrs, "GROUP-ID");
        let matches = match &group {
            Some(g) => seq_equal(g.as_slice(), chars_of(audio_id).as_slice()),
            None => false,
        };
        if matches {
            return Ok(resolved);
        }
        if fallback.is_none() {
            fallback = Some(resolved);
        }
        k = k + 1;
    }
    proof {
        assert(ls.skip(k as int) =~= Seq::<Seq<char>>::empty());
    }
    match fallback {
        Some(f) => Ok(f),
        None => Err(invalid_playlist()),
    }
}

} // verus!

verus! {

// ---------------------------------------------------------------------------------------------
// Media playlists
// ---------------------------------------------------------------------------------------------

pub struct EncryptionView {
    pub key_url: Seq<char>,
    pub iv: Seq<u8>,
}

pub struct ResourceView {
    pub url: Seq<char>,
    pub encryption: Option<EncryptionView>,
}

pub struct CmafPlaylistView {
    pub init: ResourceView,
    pub segments: Seq<ResourceView>,
}

/// AES-128 key location and IV of an encrypted resource.
pub struct Encryption {
    pub key_url: String,
    pub iv: Vec<u8>,
}

impl View for Encryption {
    type V = EncryptionView;

    open spec fn view(&self) -> EncryptionView {
        EncryptionView { key_url: self.key_url@, iv: self.iv@ }
    }
}

/// One resource of a CMAF audio playlist: the initialization section or a segment.
pub struct CmafResource {
    pub url: String,
    pub encryption: Option<Encryption>,
}

impl View for CmafResource {
    type V = ResourceView;

    open spec fn view(&self) -> ResourceView {
        ResourceView {
            url: self.url@,
            encryption: match self.encryption {
                Some(e) => Some(e@),
                None => None,
            },
        }
    }
}

pub open spec fn resources_view(v: Seq<CmafResource>) -> Seq<ResourceView> {
    v.map_values(|r: CmafResource| r@)
}

/// A complete CMAF audio playlist: its initialization section and its segments in order.
pub struct CmafPlaylist {
    pub init: CmafResource,
    pub segments: Vec<CmafResource>,
}

impl View for CmafPlaylist {
    type V = CmafPlaylistView;

    open spec fn view(&self) -> CmafPlaylistView {
        CmafPlaylistView { init: self.init@, segments: resources_view(self.segments@) }
    }
}

/// Scan state of a media playlist: the media sequence number of the next segment, the current
/// key (its URL and explicit IV), the initialization section, the segments so far, whether a
/// segment duration tag awaits its URI, and whether the end tag was seen.
pub struct CmafScan {
    pub sequence: u64,
    pub encryption: Option<(Seq<char>, Option<Seq<u8>>)>,
    pub init: Option<ResourceView>,
    pub segments: Seq<ResourceView>,
    pub pending: bool,
    pub end_list: bool,
}

pub open spec fn initial_scan() -> CmafScan {
    CmafScan {
        sequence: 0,
        encryption: None,
        init: None,
        segments: Seq::empty(),
        pending: false,
        end_list: false,
    }
}

/// An `#EXT-X-KEY` tag: `METHOD=NONE` clears the key; `METHOD=AES-128` needs a URI and may give
/// an explicit IV; any other method is rejected.
pub open spec fn key_step(
    st: CmafScan,
    value: Seq<char>,
    base: Seq<char>,
    options: NicoNicoSourceOptions,
) -> Option<CmafScan> {
    match spec_parse_attributes(value, options) {
        None => None,
        Some(attrs) => if attr_value(attrs, "METHOD"@) == Some("NONE"@) {
            Some(CmafScan { encryption: None, ..st })
        } else if attr_value(attrs, "METHOD"@) == Some("AES-128"@) {
            match attr_value(attrs, "URI"@) {
                None => None,
                Some(uri) => match spec_resolve_and_validate(base, uri, options) {
                    None => None,
                    Some(key_url) => match attr_value(attrs, "IV"@) {
                        None => Some(CmafScan { encryption: Some((key_url, None)), ..st }),
                        Some(iv) => match spec_parse_iv(iv) {
                            None => None,
                            Some(bytes) => Some(
                                CmafScan { encryption: Some((key_url, Some(bytes))), ..st },
                            ),
                        },
                    },
                },
            }
        } else {
            None
        },
    }
}

/// An `#EXT-X-MAP` tag: the only initialization section, a whole resource (no byte range), and
/// under a key only with an explicit IV.
pub open spec fn map_step(
    st: CmafScan,
    value: Seq<char>,
    base: Seq<char>,
    options: NicoNicoSourceOptions,
) -> Option<CmafScan> {
    if st.init is Some {
        None
    } else {
        match spec_parse_attributes(value, options) {
            None => None,
            Some(attrs) => if attr_value(attrs, "BYTERANGE"@) is Some {
                None
            } else {
                match attr_value(attrs, "URI"@) {
                    None => None,
                    Some(uri) => match spec_resolve_and_validate(base, uri, options) {
                        None => None,
                        Some(url) => match st.encryption {
                            None => Some(
                                CmafScan {
                                    init: Some(ResourceView { url, encryption: None }),
                                    ..st
                                },
                            ),
                            Some((key_url, iv)) => match iv {
                                None => None,
                                Some(bytes) => Some(
                                    CmafScan {
                                        init: Some(
                                            ResourceView {
                                                url,
                                                encryption: Some(
                                                    EncryptionView { key_url, iv: bytes },
                                                ),
                                            },
                                        ),
                                        ..st
                                    },
                                ),
                            },
                        },
                    },
                }
            },
        }
    }
}

/// A segment URI after its duration tag: within the entry limit, under the current key with
/// its explicit IV or the IV of its media sequence number.
pub open spec fn segment_step(
    st: CmafScan,
    line: Seq<char>,
    base: Seq<char>,
    options: NicoNicoSourceOptions,
) -> Option<CmafScan> {
    if !st.pending || st.segments.len() >= options.max_playlist_entries {
        None
    } else {
        match spec_resolve_and_validate(base, line, options) {
            None => None,
            Some(url) => if st.sequence == u64::MAX {
                None
            } else {
                let encryption = match st.encryption {
                    None => None,
                    Some((key_url, iv)) => Some(
                        EncryptionView {
                            key_url,
                            iv: match iv {
                                Some(bytes) => bytes,
                                None => spec_sequence_iv(st.sequence),
                            },
                        },
                    ),
                };
                Some(
                    CmafScan {
                        segments: st.segments.push(ResourceView { url, encryption }),
                        sequence: (st.sequence + 1) as u64,
                        pending: false,
                        ..st
                    },
                )
            },
        }
    }
}

/// One line of a media playlist, trimmed.
pub open spec fn cmaf_step(
    st: CmafScan,
    raw: Seq<char>,
    base: Seq<char>,
    options: NicoNicoSourceOptions,
) -> Option<CmafScan> {
    let line = trim(raw);
    if has_prefix(line, "#EXT-X-MEDIA-SEQUENCE:"@) {
        match crate::text::std_parse_u64(line.skip("#EXT-X-MEDIA-SEQUENCE:"@.len() as int)) {
            None => None,
            Some(v) => Some(CmafScan { sequence: v, ..st }),
        }
    } else if has_prefix(line, "#EXT-X-KEY:"@) {
        key_step(st, line.skip("#EXT-X-KEY:"@.len() as int), base, options)
    } else if has_prefix(line, "#EXT-X-MAP:"@) {
        map_step(st, line.skip("#EXT-X-MAP:"@.len() as int), base, options)
    } else if has_prefix(line, "#EXTINF:"@) {
        if st.pending {
            None
        } else {
            Some(CmafScan { pending: true, ..st })
        }
    } else if line == "#EXT-X-ENDLIST"@ {
        Some(CmafScan { end_list: true, ..st })
    } else if has_prefix(line, "#EXT-X-BYTERANGE:"@) || line == "#EXT-X-DISCONTINUITY"@ {
        None
    } else if line.len() > 0 && line[0] != '#' {
        segment_step(st, line, base, options)
    } else {
        Some(st)
    }
}

pub open spec fn cmaf_fold(
    st: CmafScan,
    ls: Seq<Seq<char>>,
    base: Seq<char>,
    options: NicoNicoSourceOptions,
) -> Option<CmafScan>
    decreases ls.len(),
{
    if ls.len() == 0 {
        Some(st)
    } else {
        match cmaf_step(st, ls[0], base, options) {
            None => None,
            Some(next) => cmaf_fold(next, ls.drop_first(), base, options),
        }
    }
}

/// A bounded, complete CMAF audio playlist: no segment duration tag left without its URI, an
/// end tag, at least one segment, and an initialization section.
pub open spec fn spec_parse_media_playlist(
    base: Seq<char>,
    bytes: Seq<u8>,
    options: NicoNicoSourceOptions,
) -> Option<CmafPlaylistView> {
    match spec_playlist_text(bytes, options) {
        None => None,
        Some(text) => match cmaf_fold(initial_scan(), crate::text::lines(text), base, options) {
            None => None,
            Some(st) => if st.pending || !st.end_list || st.segments.len() == 0 || st.init is None {
                None
            } else {
                Some(CmafPlaylistView { init: st.init->0, segments: st.segments })
            },
        },
    }
}

pub open spec fn opt_bytes(v: Option<Vec<u8>>) -> Option<Seq<u8>> {
    match v {
        Some(b) => Some(b@),
        None => None,
    }
}

pub open spec fn key_state_view(e: Option<(Vec<char>, Option<Vec<u8>>)>) -> Option<
    (Seq<char>, Option<Seq<u8>>),
> {
    match e {
        Some((k, iv)) => Some((k@, opt_bytes(iv))),
        None => None,
    }
}

struct CmafScanState {
    sequence: u64,
    encryption: Option<(Vec<char>, Option<Vec<u8>>)>,
    init: Option<CmafResource>,
    segments: Vec<CmafResource>,
    pending: bool,
    end_list: bool,
}

impl View for CmafScanState {
    type V = CmafScan;

    closed spec fn view(&self) -> CmafScan {
        CmafScan {
            sequence: self.sequence,
            encryption: key_state_view(self.encryption),
            init: match self.init {
                Some(r) => Some(r@),
                None => None,
            },
            segments: resources_view(self.segments@),
            pending: self.pending,
            end_list: self.end_list,
        }
    }
}

fn copy_bytes(b: &[u8]) -> (result: Vec<u8>)
    ensures
        result@ == b@,
{
    let mut out: Vec<u8> = Vec::new();
    let mut i: usize = 0;
    while i < b.len()
        invariant
            i <= b@.len(),
            out@ == b@.take(i as int),
        decreases b@.len() - i,
    {
        out.push(b[i]);
        proof {
            assert(b@.take(i + 1) =~= b@.take(i as int).push(b@[i as int]));
        }
        i = i + 1;
    }
    proof {
        assert(b@.take(b@.len() as int) =~= b@);
    }
    out
}

fn key_line(
    st: &mut CmafScanState,
    value: &[char],
    base: &str,
    options: &NicoNicoSourceOptions,
) -> (result: Result<(), NicoNicoPlaybackError>)
    ensures
        match key_step(old(st)@, value@, base@, *options) {
            Some(next) => result is Ok && final(st)@ == next,
            None => result matches Err(e) && e.spec_kind()
                == NicoNicoPlaybackErrorKind::InvalidPlaylist,
        },
{
    let attrs = parse_attributes(value, options)?;
    let method = attribute(&attrs, "METHOD");
    let (is_none, is_aes) = match &method {
        Some(m) => (
            seq_equal(m.as_slice(), chars_of("NONE").as_slice()),
            seq_equal(m.as_slice(), chars_of("AES-128").as_slice()),
        ),
        None => (false, false),
    };
    if is_none {
        st.encryption = None;
        return Ok(());
    }
    if !is_aes {
        return Err(invalid_playlist());
    }
    let uri = match attribute(&attrs, "URI") {
        Some(u) => u,
        None => {
            return Err(invalid_playlist());
        },
    };
    let key_url = resolve_and_validate(base, uri.as_slice(), options)?;
    let iv = match attribute(&attrs, "IV") {
        Some(text) => Some(parse_iv(text.as_slice())?),
        None => None,
    };
    st.encryption = Some((chars_of(key_url.as_str()), iv));
    Ok(())
}

fn map_line(
    st: &mut CmafScanState,
    value: &[char],
    base: &str,
    options: &NicoNicoSourceOptions,
) -> (result: Result<(), NicoNicoPlaybackError>)
    ensures
        match map_step(old(st)@, value@, base@, *options) {
            Some(next) => result is Ok && final(st)@ == next,
            None => result matches Err(e) && e.spec_kind()
                == NicoNicoPlaybackErrorKind::InvalidPlaylist,
        },
{
    if st.init.is_some() {
        return Err(invalid_playlist());
    }
    let attrs = parse_attributes(value, options)?;
    if attribute(&attrs, "BYTERANGE").is_some() {
        return Err(invalid_playlist());
    }
    let uri = match attribute(&attrs, "URI") {
        Some(u) => u,
        None => {
            return Err(invalid_playlist());
        },
    };
    let url = resolve_and_validate(base, uri.as_slice(), options)?;
    let encryption = match &st.encryption {
        None => None,
        Some((key_url, iv)) => match iv {
            None => {
                return Err(invalid_playlist());
            },
            Some(bytes) => Some(
                Encryption { key_url: string_from_chars(key_url.as_slice()), iv: copy_bytes(bytes.as_slice()) },
            ),
        },
    };
    st.init = Some(CmafResource { url, encryption });
    Ok(())
}

fn segment_line(
    st: &mut CmafScanState,
    line: &[char],
    base: &str,
    options: &NicoNicoSourceOptions,
) -> (result: Result<(), NicoNicoPlaybackError>)
    ensures
        match segment_step(old(st)@, line@, base@, *options) {
            Some(next) => result is Ok && final(st)@ == next,
            None => result matches Err(e) && e.spec_kind()
                == NicoNicoPlaybackErrorKind::InvalidPlaylist,
        },
{
    if !st.pending || st.segments.len() >= options.max_playlist_entries {
        return Err(invalid_playlist());
    }
    let url = resolve_and_validate(base, line, options)?;
    if st.sequence == u64::MAX {
        return Err(invalid_playlist());
    }
    let encryption = match &st.encryption {
        None => None,
        Some((key_url, iv)) => Some(
            Encryption {
                key_url: string_from_chars(key_url.as_slice()),
                iv: match iv {
                    Some(bytes) => copy_bytes(bytes.as_slice()),
                    None => sequence_iv_bytes(st.sequence),
                },
            },
        ),
    };
    let ghost before = resources_view(st.segments@);
    let resource = CmafResource { url, encryption };
    let ghost added = resource@;
    st.segments.push(resource);
    proof {
        assert(resources_view(st.segments@) =~= before.push(added));
    }
    st.sequence = st.sequence + 1;
    st.pending = false;
    Ok(())
}

fn skip_prefix(line: &[char], prefix: &str) -> (rest: Vec<char>)
    requires
        has_prefix(line@, prefix@),
    ensures
        rest@ == line@.skip(prefix@.len() as int),
{
    let p = chars_of(prefix);
    let rest = copy_range(line, p.len(), line.len());
    proof {
        assert(rest@ =~= line@.skip(prefix@.len() as int));
    }
    rest
}

fn cmaf_line(
    st: &mut CmafScanState,
    raw: &[char],
    base: &str,
    options: &NicoNicoSourceOptions,
) -> (result: Result<(), NicoNicoPlaybackError>)
    ensures
        match cmaf_step(old(st)@, raw@, base@, *options) {
            Some(next) => result is Ok && final(st)@ == next,
            None => result matches Err(e) && e.spec_kind()
                == NicoNicoPlaybackErrorKind::InvalidPlaylist,
        },
{
    let line = trim_chars(raw);
    if starts_with_text(line.as_slice(), "#EXT-X-MEDIA-SEQUENCE:") {
        let value = skip_prefix(line.as_slice(), "#EXT-X-MEDIA-SEQUENCE:");
        match crate::text::parse_u64_text(value.as_slice()) {
            Some(v) => {
                st.sequence = v;
                Ok(())
            },
            None => Err(invalid_playlist()),
        }
    } else if starts_with_text(line.as_slice(), "#EXT-X-KEY:") {
        let value = skip_prefix(line.as_slice(), "#EXT-X-KEY:");
        key_line(st, value.as_slice(), base, options)
    } else if starts_with_text(line.as_slice(), "#EXT-X-MAP:") {
        let value = skip_prefix(line.as_slice(), "#EXT-X-MAP:");
        map_line(st, value.as_slice(), base, options)
    } else if starts_with_text(line.as_slice(), "#EXTINF:") {
        if st.pending {
            return Err(invalid_playlist());
        }
        st.pending = true;
        Ok(())
    } else if seq_equal(line.as_slice(), chars_of("#EXT-X-ENDLIST").as_slice()) {
        st.end_list = true;
        Ok(())
    } else if starts_with_text(line.as_slice(), "#EXT-X-BYTERANGE:") || seq_equal(
        line.as_slice(),
        chars_of("#EXT-X-DISCONTINUITY").as_slice(),
    ) {
        Err(invalid_playlist())
    } else if line.len() > 0 && line[0] != '#' {
        segment_line(st, line.as_slice(), base, options)
    } else {
        Ok(())
    }
}

/// Parses a bounded CMAF audio media playlist fetched from `base`.
pub fn parse_media_playlist(base: &str, bytes: &[u8], options: &NicoNicoSourceOptions) -> (result:
    Result<CmafPlaylist, NicoNicoPlaybackError>)
    ensures
        match spec_parse_media_playlist(base@, bytes@, *options) {
            Some(p) => result matches Ok(v) && v@ == p,
            None => result matches Err(e) && e.spec_kind()
                == NicoNicoPlaybackErrorKind::InvalidPlaylist,
        },
{
    let text = playlist_text(bytes, options)?;
    let lines = crate::text::split_lines(text.as_slice());
    let ghost ls = char_seqs(lines@);
    let mut st = CmafScanState {
        sequence: 0,
        encryption: None,
        init: None,
        segments: Vec::new(),
        pending: false,
        end_list: false,
    };
    proof {
        assert(resources_view(st.segments@) =~= Seq::<ResourceView>::empty());
        assert(st@ == initial_scan());
        assert(ls.skip(0) =~= ls);
    }
    let mut k: usize = 0;
    while k < lines.len()
        invariant
            k <= lines@.len(),
            ls == char_seqs(lines@),
            ls == crate::text::lines(text@),
            spec_playlist_text(bytes@, *options) == Some(text@),
            cmaf_fold(initial_scan(), ls, base@, *options) == cmaf_fold(
                st@,
                ls.skip(k as int),
                base@,
                *options,
            ),
        decreases lines@.len() - k,
    {
        proof {
            assert(ls.skip(k as int)[0] == lines@[k as int]@);
            assert(ls.skip(k as int).drop_first() =~= ls.skip(k + 1));
        }
        cmaf_line(&mut st, lines[k].as_slice(), base, options)?;
        k = k + 1;
    }
    proof {
        assert(ls.skip(k as int) =~= Seq::<Seq<char>>::empty());
    }
    if st.pending || !st.end_list || st.segments.len() == 0 {
        return Err(invalid_playlist());
    }
    match st.init {
        Some(init) => Ok(CmafPlaylist { init, segments: st.segments }),
        None => Err(invalid_playlist()),
    }
}

} // verus!
