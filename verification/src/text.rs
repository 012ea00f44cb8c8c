use vstd::prelude::*;

use vstd::utf8::{decode_utf8, valid_utf8};

verus! {

/// Builds a `String` holding exactly the given characters, in order.
///
/// Calls `String::from_iter` over the characters (through `Iterator::collect`); its documented
/// behaviour is that the result is the concatenation of the characters, which is what the
/// contract states.
#[verifier::external_body]
pub fn string_from_chars(chars: &[char]) -> (result: String)
    ensures
        result@ == chars@,
{
    chars.iter().collect::<String>()
}

/// Collects the characters of a string slice into a vector, in order.
///
/// Calls `str::chars`, whose documented behaviour is to yield every character of the slice in
/// order, which is what the contract states.
#[verifier::external_body]
pub fn chars_of(text: &str) -> (result: Vec<char>)
    ensures
        result@ == text@,
{
    text.chars().collect()
}

/// The characters that `String::from_utf8_lossy` produces for a byte string.
pub uninterp spec fn utf8_lossy(bytes: Seq<u8>) -> Seq<char>;

/// Decodes bytes as UTF-8, replacing each invalid sequence with U+FFFD.
///
/// Calls `String::from_utf8_lossy`. Its documentation says that a valid UTF-8 input is decoded
/// unchanged, which the second clause states; how invalid sequences are replaced is left to the
/// name [`utf8_lossy`], which depends on the bytes alone.
#[verifier::external_body]
pub fn decode_utf8_lossy(bytes: &[u8]) -> (text: String)
    ensures
        text@ == utf8_lossy(bytes@),
        valid_utf8(bytes@) ==> text@ == decode_utf8(bytes@),
{
    String::from_utf8_lossy(bytes).into_owned()
}

// ---------------------------------------------------------------------------------------------
// Whitespace and trimming
// ---------------------------------------------------------------------------------------------

/// The Unicode `White_Space` property, as used by `char::is_whitespace` and `str::trim`.
pub open spec fn is_space(c: char) -> bool {
    ||| ('\u{9}' <= c && c <= '\u{d}')
    ||| c == ' '
    ||| c == '\u{85}'
    ||| c == '\u{a0}'
    ||| c == '\u{1680}'
    ||| ('\u{2000}' <= c && c <= '\u{200a}')
    ||| c == '\u{2028}'
    ||| c == '\u{2029}'
    ||| c == '\u{202f}'
    ||| c == '\u{205f}'
    ||| c == '\u{3000}'
}

pub fn is_space_char(c: char) -> (result: bool)
    ensures
        result == is_space(c),
{
    ('\u{9}' <= c && c <= '\u{d}') || c == ' ' || c == '\u{85}' || c == '\u{a0}' || c
        == '\u{1680}' || ('\u{2000}' <= c && c <= '\u{200a}') || c == '\u{2028}' || c
        == '\u{2029}' || c == '\u{202f}' || c == '\u{205f}' || c == '\u{3000}'
}

/// Removes leading whitespace.
pub open spec fn trim_start(s: Seq<char>) -> Seq<char>
    decreases s.len(),
{
    if s.len() > 0 && is_space(s[0]) {
        trim_start(s.drop_first())
    } else {
        s
    }
}

/// Removes trailing whitespace.
pub open spec fn trim_end(s: Seq<char>) -> Seq<char>
    decreases s.len(),
{
    if s.len() > 0 && is_space(s.last()) {
        trim_end(s.drop_last())
    } else {
        s
    }
}

/// Removes leading and trailing whitespace, as `str::trim` does.
pub open spec fn trim(s: Seq<char>) -> Seq<char> {
    trim_end(trim_start(s))
}

pub proof fn lemma_trim_start_skip(s: Seq<char>, i: int)
    requires
        0 <= i <= s.len(),
        forall|j: int| 0 <= j < i ==> is_space(#[trigger] s[j]),
    ensures
        trim_start(s) == trim_start(s.skip(i)),
    decreases i,
{
    if i > 0 {
        assert(s.drop_first().skip(i - 1) =~= s.skip(i));
        lemma_trim_start_skip(s.drop_first(), i - 1);
    } else {
        assert(s.skip(0) =~= s);
    }
}

proof fn lemma_trim_end_take(s: Seq<char>, i: int)
    requires
        0 <= i <= s.len(),
        forall|j: int| i <= j < s.len() ==> is_space(#[trigger] s[j]),
    ensures
        trim_end(s) == trim_end(s.take(i)),
    decreases s.len() - i,
{
    if i < s.len() {
        assert(s.drop_last().take(i) =~= s.take(i));
        lemma_trim_end_take(s.drop_last(), i);
    } else {
        assert(s.take(i) =~= s);
    }
}

/// The characters of `s` with leading and trailing whitespace removed.
pub fn trim_chars(s: &[char]) -> (result: Vec<char>)
    ensures
        result@ == trim(s@),
{
    let mut start: usize = 0;
    while start < s.len() && is_space_char(s[start])
        invariant
            start <= s@.len(),
            forall|j: int| 0 <= j < start ==> is_space(#[trigger] s@[j]),
        decreases s@.len() - start,
    {
        start = start + 1;
    }
    proof {
        lemma_trim_start_skip(s@, start as int);
    }
    let ghost rest = s@.skip(start as int);
    let mut end: usize = s.len();
    while end > start && is_space_char(s[end - 1])
        invariant
            start <= end <= s@.len(),
            rest == s@.skip(start as int),
            forall|j: int| end - start <= j < rest.len() ==> is_space(#[trigger] rest[j]),
        decreases end,
    {
        end = end - 1;
    }
    proof {
        lemma_trim_end_take(rest, end - start);
        if start < s@.len() {
            assert(!is_space(rest[0]));
        }
    }
    let mut out: Vec<char> = Vec::new();
    let mut i = start;
    while i < end
        invariant
            start <= i <= end <= s@.len(),
            out@ == s@.subrange(start as int, i as int),
        decreases end - i,
    {
        out.push(s[i]);
        i = i + 1;
    }
    proof {
        assert(out@ =~= rest.take(end - start));
        if start < s@.len() {
            assert(trim_start(rest) == rest);
        } else {
            assert(rest.len() == 0);
        }
    }
    out
}

// ---------------------------------------------------------------------------------------------
// Lines
// ---------------------------------------------------------------------------------------------

/// Index of the first `'\n'` at or after `i`, or the length of `t`.
pub open spec fn next_newline(t: Seq<char>, i: int) -> int
    decreases t.len() - i,
{
    if i >= t.len() {
        t.len() as int
    } else if t[i] == '\n' {
        i
    } else {
        next_newline(t, i + 1)
    }
}

pub proof fn lemma_next_newline(t: Seq<char>, i: int)
    requires
        0 <= i,
    ensures
        i <= t.len() ==> i <= next_newline(t, i) <= t.len(),
        next_newline(t, i) < t.len() ==> t[next_newline(t, i)] == '\n',
        forall|j: int| i <= j < next_newline(t, i) ==> t[j] != '\n',
    decreases t.len() - i,
{
    if i < t.len() && t[i] != '\n' {
        lemma_next_newline(t, i + 1);
    }
}

/// One line ending at `e`: a `"\r\n"` terminator loses its carriage return.
pub open spec fn line_text(t: Seq<char>, i: int, e: int) -> Seq<char> {
    let raw = t.subrange(i, e);
    if e < t.len() && raw.len() > 0 && raw.last() == '\r' {
        raw.drop_last()
    } else {
        raw
    }
}

/// The lines of `t` from index `i`, as `str::lines` yields them: split at `'\n'`, a `'\r'` before
/// the `'\n'` removed, and no empty line after a final line ending.
pub open spec fn lines_from(t: Seq<char>, i: int) -> Seq<Seq<char>>
    decreases t.len() - i,
{
    if i < 0 || i >= t.len() {
        Seq::empty()
    } else {
        let e = next_newline(t, i);
        proof {
            lemma_next_newline(t, i);
        }
        if e >= t.len() {
            seq![line_text(t, i, e)]
        } else {
            seq![line_text(t, i, e)] + lines_from(t, e + 1)
        }
    }
}

pub open spec fn lines(t: Seq<char>) -> Seq<Seq<char>> {
    lines_from(t, 0)
}

pub open spec fn char_seqs(v: Seq<Vec<char>>) -> Seq<Seq<char>> {
    v.map_values(|l: Vec<char>| l@)
}

/// Splits text into lines as `str::lines` does.
pub fn split_lines(t: &[char]) -> (result: Vec<Vec<char>>)
    ensures
        char_seqs(result@) == lines(t@),
{
    let mut out: Vec<Vec<char>> = Vec::new();
    let mut i: usize = 0;
    proof {
        assert(char_seqs(out@) + lines_from(t@, 0) =~= lines(t@));
    }
    while i < t.len()
        invariant
            i <= t@.len(),
            char_seqs(out@) + lines_from(t@, i as int) == lines(t@),
        decreases t@.len() - i,
    {
        let mut e = i;
        proof {
            lemma_next_newline(t@, i as int);
        }
        while e < t.len() && t[e] != '\n'
            invariant
                i <= e <= t@.len(),
                next_newline(t@, i as int) == next_newline(t@, e as int),
            decreases t@.len() - e,
        {
            e = e + 1;
        }
        let mut end = e;
        if e < t.len() && end > i && t[end - 1] == '\r' {
            end = end - 1;
        }
        let mut line: Vec<char> = Vec::new();
        let mut k = i;
        while k < end
            invariant
                i <= k <= end <= e <= t@.len(),
                line@ == t@.subrange(i as int, k as int),
            decreases end - k,
        {
            line.push(t[k]);
            k = k + 1;
        }
        let ghost before = char_seqs(out@);
        proof {
            assert(line@ =~= line_text(t@, i as int, e as int));
        }
        out.push(line);
        proof {
            assert(char_seqs(out@) =~= before + seq![line_text(t@, i as int, e as int)]);
            if e < t@.len() {
                assert(lines_from(t@, i as int) == seq![line_text(t@, i as int, e as int)]
                    + lines_from(t@, e + 1));
            } else {
                assert(lines_from(t@, e + 1) =~= Seq::<Seq<char>>::empty());
                assert(lines_from(t@, i as int) =~= seq![line_text(t@, i as int, e as int)]
                    + lines_from(t@, e + 1));
            }
            assert(char_seqs(out@) + lines_from(t@, e + 1) =~= before + lines_from(t@, i as int));
        }
        if e == t.len() {
            i = e;
        } else {
            i = e + 1;
        }
    }
    proof {
        assert(char_seqs(out@) + lines_from(t@, i as int) =~= char_seqs(out@));
    }
    out
}

// ---------------------------------------------------------------------------------------------
// Prefixes and searching
// ---------------------------------------------------------------------------------------------

pub open spec fn has_prefix(s: Seq<char>, p: Seq<char>) -> bool {
    p.len() <= s.len() && s.take(p.len() as int) == p
}

pub fn starts_with(s: &[char], p: &[char]) -> (result: bool)
    ensures
        result == has_prefix(s@, p@),
{
    if p.len() > s.len() {
        return false;
    }
    let mut i: usize = 0;
    while i < p.len()
        invariant
            i <= p@.len() <= s@.len(),
            forall|j: int| 0 <= j < i ==> s@[j] == p@[j],
        decreases p@.len() - i,
    {
        if s[i] != p[i] {
            assert(s@.take(p@.len() as int)[i as int] != p@[i as int]);
            return false;
        }
        i = i + 1;
    }
    assert(s@.take(p@.len() as int) =~= p@);
    true
}

pub open spec fn has_byte_prefix(s: Seq<u8>, p: Seq<u8>) -> bool {
    p.len() <= s.len() && s.take(p.len() as int) == p
}

pub fn starts_with_bytes(s: &[u8], p: &[u8]) -> (result: bool)
    ensures
        result == has_byte_prefix(s@, p@),
{
    if p.len() > s.len() {
        return false;
    }
    let mut i: usize = 0;
    while i < p.len()
        invariant
            i <= p@.len() <= s@.len(),
            forall|j: int| 0 <= j < i ==> s@[j] == p@[j],
        decreases p@.len() - i,
    {
        if s[i] != p[i] {
            assert(s@.take(p@.len() as int)[i as int] != p@[i as int]);
            return false;
        }
        i = i + 1;
    }
    assert(s@.take(p@.len() as int) =~= p@);
    true
}

/// Index of the first occurrence of `c` in `s`, if any.
pub open spec fn find_char(s: Seq<char>, c: char) -> Option<int>
    decreases s.len(),
{
    if s.len() == 0 {
        None
    } else if s[0] == c {
        Some(0)
    } else {
        match find_char(s.drop_first(), c) {
            Some(i) => Some(i + 1),
            None => None,
        }
    }
}

pub proof fn lemma_find_char(s: Seq<char>, c: char)
    ensures
        find_char(s, c) matches Some(i) ==> 0 <= i < s.len() && s[i] == c && forall|j: int|
            0 <= j < i ==> s[j] != c,
        find_char(s, c) is None ==> forall|j: int| 0 <= j < s.len() ==> s[j] != c,
    decreases s.len(),
{
    if s.len() > 0 {
        lemma_find_char(s.drop_first(), c);
        if s[0] != c {
            assert forall|j: int| 1 <= j < s.len() implies s[j] == s.drop_first()[j - 1] by {}
        }
    }
}

pub fn find_char_index(s: &[char], c: char) -> (result: Option<usize>)
    ensures
        match result {
            Some(i) => find_char(s@, c) == Some(i as int),
            None => find_char(s@, c) is None,
        },
{
    proof {
        lemma_find_char(s@, c);
    }
    let mut i: usize = 0;
    while i < s.len()
        invariant
            i <= s@.len(),
            forall|j: int| 0 <= j < i ==> s@[j] != c,
        decreases s@.len() - i,
    {
        if s[i] == c {
            proof {
                lemma_find_char(s@, c);
                match find_char(s@, c) {
                    Some(k) => {
                        if k < i {
                            assert(s@[k] == c);
                        } else if k > i {
                            assert(s@[i as int] != c);
                        }
                    },
                    None => {
                        assert(s@[i as int] != c);
                    },
                }
            }
            return Some(i);
        }
        i = i + 1;
    }
    None
}

/// Splits at the first occurrence of `c`, as `str::split_once` does with a character.
pub open spec fn split_once(s: Seq<char>, c: char) -> Option<(Seq<char>, Seq<char>)> {
    match find_char(s, c) {
        Some(i) => Some((s.take(i), s.skip(i + 1))),
        None => None,
    }
}

pub fn split_once_chars(s: &[char], c: char) -> (result: Option<(Vec<char>, Vec<char>)>)
    ensures
        match split_once(s@, c) {
            Some((a, b)) => result matches Some((x, y)) && x@ == a && y@ == b,
            None => result is None,
        },
{
    proof {
        lemma_find_char(s@, c);
    }
    match find_char_index(s, c) {
        Some(i) => {
            proof {
                lemma_find_char(s@, c);
            }
            let n = s.len();
            let head = copy_range(s, 0, i);
            let tail = copy_range(s, i + 1, n);
            proof {
                assert(head@ =~= s@.take(i as int));
                assert(tail@ =~= s@.skip(i + 1));
            }
            Some((head, tail))
        },
        None => None,
    }
}

/// A copy of `s[start..end]`.
pub fn copy_range(s: &[char], start: usize, end: usize) -> (result: Vec<char>)
    requires
        start <= end <= s@.len(),
    ensures
        result@ == s@.subrange(start as int, end as int),
{
    let mut out: Vec<char> = Vec::new();
    let mut i = start;
    while i < end
        invariant
            start <= i <= end <= s@.len(),
            out@ == s@.subrange(start as int, i as int),
        decreases end - i,
    {
        out.push(s[i]);
        i = i + 1;
    }
    out
}

// ---------------------------------------------------------------------------------------------
// Decimal numbers
// ---------------------------------------------------------------------------------------------

pub open spec fn is_digit(c: char) -> bool {
    '0' <= c && c <= '9'
}

pub open spec fn all_digits(s: Seq<char>) -> bool {
    forall|i: int| 0 <= i < s.len() ==> is_digit(#[trigger] s[i])
}

/// Every character is an ASCII digit.
pub fn all_digit_chars(s: &[char]) -> (result: bool)
    ensures
        result == all_digits(s@),
{
    let mut i: usize = 0;
    while i < s.len()
        invariant
            i <= s@.len(),
            forall|j: int| 0 <= j < i ==> is_digit(#[trigger] s@[j]),
        decreases s@.len() - i,
    {
        if !('0' <= s[i] && s[i] <= '9') {
            return false;
        }
        i = i + 1;
    }
    true
}

pub open spec fn digit_value(c: char) -> nat {
    (c as u32 - '0' as u32) as nat
}

/// The value of a string of decimal digits.
pub open spec fn decimal_value(s: Seq<char>) -> nat
    decreases s.len(),
{
    if s.len() == 0 {
        0
    } else {
        decimal_value(s.drop_last()) * 10 + digit_value(s.last())
    }
}

/// What `str::parse::<u64>` returns for a non-empty string of ASCII digits: the value, unless it
/// does not fit.
pub open spec fn parse_digits_u64(s: Seq<char>) -> Option<u64> {
    if s.len() == 0 || !all_digits(s) || decimal_value(s) > u64::MAX {
        None
    } else {
        Some(decimal_value(s) as u64)
    }
}

proof fn lemma_decimal_monotone(s: Seq<char>, i: int)
    requires
        0 <= i <= s.len(),
        all_digits(s),
    ensures
        decimal_value(s.take(i)) <= decimal_value(s),
    decreases s.len() - i,
{
    if i < s.len() {
        assert(s.drop_last().take(i) =~= s.take(i));
        assert(all_digits(s.drop_last()));
        lemma_decimal_monotone(s.drop_last(), i);
        assert(decimal_value(s.drop_last()) <= decimal_value(s)) by (nonlinear_arith)
            requires
                decimal_value(s) == decimal_value(s.drop_last()) * 10 + digit_value(s.last()),
        ;
    } else {
        assert(s.take(i) =~= s);
    }
}

/// Parses a string of decimal digits into a `u64`, failing on an empty string, a non-digit or
/// overflow.
pub fn parse_u64_digits(s: &[char]) -> (result: Option<u64>)
    ensures
        result == parse_digits_u64(s@),
{
    if s.len() == 0 {
        return None;
    }
    let mut i: usize = 0;
    while i < s.len()
        invariant
            i <= s@.len(),
            forall|j: int| 0 <= j < i ==> is_digit(#[trigger] s@[j]),
        decreases s@.len() - i,
    {
        if !('0' <= s[i] && s[i] <= '9') {
            return None;
        }
        i = i + 1;
    }
    assert(all_digits(s@));
    let mut value: u64 = 0;
    let mut k: usize = 0;
    while k < s.len()
        invariant
            k <= s@.len(),
            all_digits(s@),
            value == decimal_value(s@.take(k as int)),
        decreases s@.len() - k,
    {
        let d = (s[k] as u32 - '0' as u32) as u64;
        proof {
            assert(s@.take(k + 1).drop_last() =~= s@.take(k as int));
            assert(s@.take(k + 1).last() == s@[k as int]);
            assert(is_digit(s@[k as int]));
        }
        if value > 1844674407370955161 || (value == 1844674407370955161 && d > 5) {
            proof {
                assert(all_digits(s@.take(k + 1)));
                lemma_decimal_monotone(s@, k + 1);
                assert(decimal_value(s@.take(k + 1)) > u64::MAX);
            }
            return None;
        }
        value = value * 10 + d;
        k = k + 1;
    }
    assert(s@.take(s@.len() as int) =~= s@);
    Some(value)
}

/// What `str::parse::<u64>` returns: one optional leading `+`, then decimal digits that fit.
pub open spec fn std_parse_u64(s: Seq<char>) -> Option<u64> {
    if s.len() > 0 && s[0] == '+' {
        parse_digits_u64(s.skip(1))
    } else {
        parse_digits_u64(s)
    }
}

pub fn parse_u64_text(s: &[char]) -> (result: Option<u64>)
    ensures
        result == std_parse_u64(s@),
{
    if s.len() > 0 && s[0] == '+' {
        let rest = copy_range(s, 1, s.len());
        proof {
            assert(rest@ =~= s@.skip(1));
        }
        parse_u64_digits(rest.as_slice())
    } else {
        parse_u64_digits(s)
    }
}

/// Appends the characters of a text.
pub fn append_str(out: &mut Vec<char>, text: &str)
    ensures
        final(out)@ == old(out)@ + text@,
{
    let mut piece = chars_of(text);
    let ghost before = out@;
    let ghost added = piece@;
    out.append(&mut piece);
    proof {
        assert(out@ =~= before + added);
    }
}

#[verifier::external_body]
/// Reports the capacity of a vector.
///
/// Calls `Vec::capacity`; its documentation promises only that the capacity is at least the
/// length, which the contract states. The exact value depends on the allocator.
pub fn vec_capacity<T>(v: &Vec<T>) -> (capacity: usize)
    ensures
        capacity >= v@.len(),
{
    v.capacity()
}

} // verus!
