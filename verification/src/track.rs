use vstd::prelude::*;

use crate::duration::Duration;
use crate::text::{chars_of, string_from_chars};

verus! {

/// The source-independent description of a playable track.
#[derive(Debug, PartialEq, Eq)]
pub struct TrackInfo {
    pub title: String,
    pub author: String,
    pub duration: Duration,
    pub identifier: String,
    pub is_stream: bool,
    pub uri: Option<String>,
    pub artwork_url: Option<String>,
    pub isrc: Option<String>,
}

pub open spec fn opt_text(value: Option<String>) -> Option<Seq<char>> {
    match value {
        Some(s) => Some(s@),
        None => None,
    }
}

/// A copy of a text.
pub fn copy_text(value: &str) -> (copy: String)
    ensures
        copy@ == value@,
{
    string_from_chars(chars_of(value).as_slice())
}

/// A copy of an optional text.
pub fn copy_opt_text(value: &Option<String>) -> (copy: Option<String>)
    ensures
        opt_text(copy) == opt_text(*value),
{
    match value {
        Some(s) => Some(copy_text(s.as_str())),
        None => None,
    }
}

impl TrackInfo {
    /// A field-by-field copy.
    pub fn duplicate(&self) -> (copy: Self)
        ensures
            copy.title@ == self.title@,
            copy.author@ == self.author@,
            copy.duration@ == self.duration@,
            copy.identifier@ == self.identifier@,
            copy.is_stream == self.is_stream,
            opt_text(copy.uri) == opt_text(self.uri),
            opt_text(copy.artwork_url) == opt_text(self.artwork_url),
            opt_text(copy.isrc) == opt_text(self.isrc),
    {
        TrackInfo {
            title: copy_text(self.title.as_str()),
            author: copy_text(self.author.as_str()),
            duration: self.duration,
            identifier: copy_text(self.identifier.as_str()),
            is_stream: self.is_stream,
            uri: copy_opt_text(&self.uri),
            artwork_url: copy_opt_text(&self.artwork_url),
            isrc: copy_opt_text(&self.isrc),
        }
    }
}

} // verus!

verus! {

pub struct TrackInfoView {
    pub title: Seq<char>,
    pub author: Seq<char>,
    pub duration: int,
    pub identifier: Seq<char>,
    pub is_stream: bool,
    pub uri: Option<Seq<char>>,
    pub artwork_url: Option<Seq<char>>,
    pub isrc: Option<Seq<char>>,
}

impl View for TrackInfo {
    type V = TrackInfoView;

    open spec fn view(&self) -> TrackInfoView {
        TrackInfoView {
            title: self.title@,
            author: self.author@,
            duration: self.duration@,
            identifier: self.identifier@,
            is_stream: self.is_stream,
            uri: opt_text(self.uri),
            artwork_url: opt_text(self.artwork_url),
            isrc: opt_text(self.isrc),
        }
    }
}

/// The decimal digits of a number, most significant first.
pub open spec fn decimal_text(n: nat) -> Seq<char>
    decreases n,
{
    if n < 10 {
        seq![(n + 48) as char]
    } else {
        decimal_text(n / 10).push(((n % 10) + 48) as char)
    }
}

/// Writes a number in decimal, as `u64::to_string` does.
pub fn decimal_string(n: u64) -> (text: String)
    ensures
        text@ == decimal_text(n as nat),
{
    let mut digits: Vec<char> = Vec::new();
    let mut rest = n;
    let ghost mut tail: Seq<char> = Seq::empty();
    proof {
        assert(decimal_text(n as nat) =~= decimal_text(rest as nat) + tail);
    }
    while rest >= 10
        invariant
            decimal_text(n as nat) == decimal_text(rest as nat) + tail,
            digits@ == tail.reverse(),
        decreases rest,
    {
        let d = (rest % 10) as u8;
        let c = (d + 48) as char;
        proof {
            assert(decimal_text(rest as nat) == decimal_text((rest / 10) as nat).push(c));
            assert(decimal_text(rest as nat) + tail =~= decimal_text((rest / 10) as nat) + (seq![c]
                + tail));
            tail = seq![c] + tail;
            assert(tail.reverse() =~= digits@.push(c));
        }
        digits.push(c);
        rest = rest / 10;
    }
    let c = ((rest as u8) + 48) as char;
    proof {
        assert(decimal_text(rest as nat) == seq![c]);
        tail = seq![c] + tail;
        assert(tail.reverse() =~= digits@.push(c));
    }
    digits.push(c);
    let mut out: Vec<char> = Vec::new();
    let mut i = digits.len();
    while i > 0
        invariant
            i <= digits@.len(),
            out@ == digits@.subrange(i as int, digits@.len() as int).reverse(),
        decreases i,
    {
        i = i - 1;
        out.push(digits[i]);
        proof {
            assert(digits@.subrange(i as int, digits@.len() as int).reverse() =~= digits@.subrange(
                i + 1,
                digits@.len() as int,
            ).reverse().push(digits@[i as int]));
        }
    }
    proof {
        assert(digits@.subrange(0, digits@.len() as int) =~= digits@);
        assert(digits@.reverse().reverse() =~= digits@);
        assert(out@ =~= tail);
    }
    string_from_chars(out.as_slice())
}

} // verus!
