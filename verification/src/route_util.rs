use vstd::prelude::*;

use vstd::utf8::encode_utf8;

use crate::playlist::{contains_char, seq_equal};
use crate::text::{chars_of, find_char_index, lemma_find_char, string_from_chars};
use crate::uri::{parse_uri, UriParts, UriView};

verus! {

/// The length of a text in UTF-8 bytes, as `str::len` reports it.
pub open spec fn utf8_len(s: Seq<char>) -> usize {
    encode_utf8(s).len() as usize
}

pub fn utf8_length(s: &[char]) -> (n: usize)
    ensures
        n == utf8_len(s@),
{
    let text = string_from_chars(s);
    text.as_str().len()
}

pub fn contains(s: &[char], c: char) -> (result: bool)
    ensures
        result == contains_char(s@, c),
{
    proof {
        lemma_find_char(s@, c);
    }
    find_char_index(s, c).is_some()
}

/// ASCII letters, digits, `_` and `-`.
pub open spec fn is_token_char(c: char) -> bool {
    ('a' <= c && c <= 'z') || ('A' <= c && c <= 'Z') || ('0' <= c && c <= '9') || c == '_' || c
        == '-'
}

/// A non-empty token of ASCII letters, digits, `_` and `-`, at most `limit` bytes long.
pub open spec fn valid_token(s: Seq<char>, limit: int) -> bool {
    &&& s.len() > 0
    &&& s.len() <= limit
    &&& forall|i: int| 0 <= i < s.len() ==> is_token_char(#[trigger] s[i])
}

pub fn is_valid_token(s: &[char], limit: usize) -> (result: bool)
    ensures
        result == valid_token(s@, limit as int),
{
    if s.len() == 0 || s.len() > limit {
        return false;
    }
    let mut i: usize = 0;
    while i < s.len()
        invariant
            i <= s@.len(),
            forall|j: int| 0 <= j < i ==> is_token_char(#[trigger] s@[j]),
        decreases s@.len() - i,
    {
        let c = s[i];
        if !(('a' <= c && c <= 'z') || ('A' <= c && c <= 'Z') || ('0' <= c && c <= '9') || c == '_'
            || c == '-') {
            return false;
        }
        i = i + 1;
    }
    true
}

pub open spec fn lower_char(c: char) -> char {
    if 'A' <= c && c <= 'Z' {
        ((c as u8) + 32) as char
    } else {
        c
    }
}

/// ASCII lowercase, as `str::to_ascii_lowercase` does.
pub open spec fn ascii_lowercase(s: Seq<char>) -> Seq<char> {
    s.map_values(|c: char| lower_char(c))
}

pub fn to_ascii_lowercase(s: &[char]) -> (result: Vec<char>)
    ensures
        result@ == ascii_lowercase(s@),
{
    let mut out: Vec<char> = Vec::new();
    let mut i: usize = 0;
    while i < s.len()
        invariant
            i <= s@.len(),
            out@ == ascii_lowercase(s@.take(i as int)),
        decreases s@.len() - i,
    {
        let c = s[i];
        let lower = if 'A' <= c && c <= 'Z' {
            ((c as u8) + 32) as char
        } else {
            c
        };
        out.push(lower);
        proof {
            assert(s@.take(i + 1) =~= s@.take(i as int).push(c));
            assert(out@ =~= ascii_lowercase(s@.take(i + 1)));
        }
        i = i + 1;
    }
    proof {
        assert(s@.take(s@.len() as int) =~= s@);
    }
    out
}

/// The checks that every historical page route shares: a bounded identifier without a fragment
/// that parses as a URI whose authority is a bare host.
pub open spec fn spec_bare_host_uri(identifier: Seq<char>, max_identifier_bytes: int) -> Option<
    UriView,
> {
    if identifier.len() == 0 || utf8_len(identifier) > max_identifier_bytes || contains_char(
        identifier,
        '#',
    ) {
        None
    } else {
        match crate::uri::parsed_uri(identifier) {
            None => None,
            Some(u) => if u.authority is None || contains_char(u.authority->0, '@') || u.host
                != u.authority {
                None
            } else {
                Some(u)
            },
        }
    }
}

pub fn bare_host_uri(identifier: &[char], max_identifier_bytes: usize) -> (result: Option<UriParts>)
    ensures
        crate::uri::opt_uri_view(result) == spec_bare_host_uri(
            identifier@,
            max_identifier_bytes as int,
        ),
{
    if identifier.len() == 0 || utf8_length(identifier) > max_identifier_bytes || contains(
        identifier,
        '#',
    ) {
        return None;
    }
    let uri = parse_uri(identifier)?;
    let authority = match &uri.authority {
        Some(a) => a,
        None => {
            return None;
        },
    };
    if contains(authority.as_slice(), '@') {
        return None;
    }
    let same = match &uri.host {
        Some(h) => seq_equal(h.as_slice(), authority.as_slice()),
        None => false,
    };
    if !same {
        return None;
    }
    Some(uri)
}

pub fn opt_seq_is(value: &Option<Vec<char>>, literal: &str) -> (result: bool)
    ensures
        result == (crate::uri::opt_chars_view(*value) == Some(literal@)),
{
    match value {
        Some(v) => seq_equal(v.as_slice(), chars_of(literal).as_slice()),
        None => false,
    }
}

} // verus!
