//! The human-readable texts of the media, playlist, HLS, MPEG-TS and remote HTTP errors.
use vstd::prelude::*;

use crate::duration::Duration;
use crate::hls::HlsError;
use crate::media::{Codec, MediaError};
use crate::mpeg_ts::MpegTsError;
use crate::playlist::PlaylistError;
use crate::remote_http::{RemoteHttpError, RemoteHttpErrorKind};
use crate::text::{chars_of, has_prefix, string_from_chars};
use crate::track::{decimal_string, decimal_text};

verus! {

fn put(out: &mut Vec<char>, text: &str)
    ensures
        final(out)@ == old(out)@ + text@,
{
    let mut piece = chars_of(text);
    let ghost before = out@;
    let ghost added = piece@;
    out.append(&mut piece);
    proof {
        assert(out@ =~= before + added);
    }
}

fn add_number(out: &mut Vec<char>, n: u64)
    ensures
        final(out)@ == old(out)@ + decimal_text(n as nat),
{
    let digits = decimal_string(n);
    put(out, digits.as_str());
}

fn finish(out: Vec<char>) -> (text: String)
    ensures
        text@ == out@,
{
    string_from_chars(out.as_slice())
}

pub open spec fn dec(n: int) -> Seq<char> {
    decimal_text(n as nat)
}

/// The lower-case hexadecimal digits of a number, most significant first.
pub open spec fn hex_digit(d: nat) -> char {
    if d < 10 {
        (d + 48) as char
    } else {
        (d + 87) as char
    }
}

pub open spec fn hex_text_of(n: nat) -> Seq<char>
    decreases n,
{
    if n < 16 {
        seq![hex_digit(n)]
    } else {
        hex_text_of(n / 16).push(hex_digit(n % 16))
    }
}

fn hex_string(n: u16) -> (text: Vec<char>)
    ensures
        text@ == hex_text_of(n as nat),
{
    let mut digits: Vec<char> = Vec::new();
    let mut rest: u16 = n;
    let ghost mut tail: Seq<char> = Seq::empty();
    while rest >= 16
        invariant
            hex_text_of(n as nat) == hex_text_of(rest as nat) + tail,
            digits@ == tail.reverse(),
        decreases rest,
    {
        let d = rest % 16;
        let c = if d < 10 {
            ((d + 48) as u8) as char
        } else {
            ((d + 87) as u8) as char
        };
        proof {
            assert(hex_text_of(rest as nat) == hex_text_of((rest / 16) as nat).push(hex_digit(
                (rest % 16) as nat,
            )));
            assert(c == hex_digit((rest % 16) as nat));
            assert(hex_text_of((rest / 16) as nat).push(c) + tail =~= hex_text_of(
                (rest / 16) as nat,
            ) + (seq![c] + tail));
            assert((seq![c] + tail).reverse() =~= tail.reverse().push(c));
            tail = seq![c] + tail;
        }
        digits.push(c);
        rest = rest / 16;
    }
    let c = if rest < 10 {
        ((rest + 48) as u8) as char
    } else {
        ((rest + 87) as u8) as char
    };
    proof {
        assert(c == hex_digit(rest as nat));
        assert(hex_text_of(rest as nat) =~= seq![c]);
        assert((seq![c] + tail).reverse() =~= tail.reverse().push(c));
        tail = seq![c] + tail;
    }
    digits.push(c);
    let mut out: Vec<char> = Vec::new();
    let mut i: usize = digits.len();
    while i > 0
        invariant
            i <= digits@.len(),
            digits@ == tail.reverse(),
            out@ == tail.take((tail.len() - i) as int),
            tail.len() == digits@.len(),
        decreases i,
    {
        i = i - 1;
        out.push(digits[i]);
        proof {
            assert(digits@[i as int] == tail[(tail.len() - 1 - i) as int]);
            assert(out@ =~= tail.take((tail.len() - i) as int));
        }
    }
    proof {
        assert(out@ =~= tail);
        assert(hex_text_of(n as nat) =~= tail);
    }
    out
}

/// The name `Debug` gives a codec.
pub open spec fn codec_debug_name(codec: Codec) -> Seq<char> {
    match codec {
        Codec::PcmS16Le => "PcmS16Le"@,
        Codec::PcmS24Le => "PcmS24Le"@,
        Codec::PcmS32Le => "PcmS32Le"@,
        Codec::Mp3 => "Mp3"@,
        Codec::AacLc => "AacLc"@,
        Codec::HeAacV1 => "HeAacV1"@,
        Codec::HeAacV2 => "HeAacV2"@,
        Codec::Opus => "Opus"@,
        Codec::Flac => "Flac"@,
        Codec::Vorbis => "Vorbis"@,
    }
}

fn codec_name(codec: Codec) -> (name: &'static str)
    ensures
        name@ == codec_debug_name(codec),
{
    match codec {
        Codec::PcmS16Le => "PcmS16Le",
        Codec::PcmS24Le => "PcmS24Le",
        Codec::PcmS32Le => "PcmS32Le",
        Codec::Mp3 => "Mp3",
        Codec::AacLc => "AacLc",
        Codec::HeAacV1 => "HeAacV1",
        Codec::HeAacV2 => "HeAacV2",
        Codec::Opus => "Opus",
        Codec::Flac => "Flac",
        Codec::Vorbis => "Vorbis",
    }
}

/// The text of a media error other than an I/O failure.
pub open spec fn spec_media_message(error: MediaError) -> Seq<char> {
    match error {
        MediaError::Io(_) => "media I/O failed: "@,
        MediaError::Cancelled => "media operation cancelled"@,
        MediaError::InvalidLimits(m) => "invalid media limits: "@ + m@,
        MediaError::InvalidHttpOptions(m) => "invalid HTTP range options: "@ + m@,
        MediaError::ProbeLimitExceeded { limit } => "media probe exceeded its "@ + dec(limit as int)
            + "-byte limit"@,
        MediaError::NoAudioTrack => "media contains no supported audio track"@,
        MediaError::UnsupportedContainer(c) => "unsupported media container: "@ + c@,
        MediaError::UnsupportedCodec(c) => "unsupported audio codec: "@ + c@,
        MediaError::UnsupportedCodecProfile { codec, profile } => "unsupported "@ + codec@
            + " profile: "@ + profile@,
        MediaError::PacketTooLarge { actual, limit } => "media packet has "@ + dec(actual as int)
            + " bytes; limit is "@ + dec(limit as int),
        MediaError::CodecConfigTooLarge { actual, limit } => "codec configuration has "@ + dec(
            actual as int,
        ) + " bytes; limit is "@ + dec(limit as int),
        MediaError::CodecProbeLimitExceeded { actual, limit } => "codec profile probe consumed "@
            + dec(actual as int) + " bytes; limit is "@ + dec(limit as int),
        MediaError::PcmFrameTooLarge { actual, limit } => "decoded frame has "@ + dec(actual as int)
            + " samples; limit is "@ + dec(limit as int),
        MediaError::OutputBufferTooSmall { required, capacity } => "reusable output capacity is "@
            + dec(capacity as int) + "; "@ + dec(required as int) + " elements are required"@,
        MediaError::DecodeErrorLimitExceeded { limit } => "more than "@ + dec(limit as int)
            + " consecutive packets failed to decode"@,
        MediaError::DecodeDelayLimitExceeded { limit } => "decoder buffered more than "@ + dec(
            limit as int,
        ) + " packet timestamps without output"@,
        MediaError::WrongOutputKind { codec } => "the "@ + codec_debug_name(codec)
            + " track does not produce this output kind"@,
        MediaError::Backend { operation, message } => "media backend failed during "@
            + operation@ + ": "@ + message@,
    }
}

/// Calls `to_string` on an I/O error, whose text comes from the operating system for OS
/// errors; nothing is stated of it.
#[verifier::external_body]
fn io_error_text(error: &std::io::Error) -> (text: String)
{
    error.to_string()
}

impl MediaError {
    /// The error's text; that of an I/O failure continues with the I/O error's own text.
    pub fn message(&self) -> (text: String)
        ensures
            has_prefix(text@, spec_media_message(*self)),
            !(self is Io) ==> text@ == spec_media_message(*self),
    {
        let mut out: Vec<char> = Vec::new();
        match self {
            MediaError::Io(e) => {
                put(&mut out, "media I/O failed: ");
                let detail = io_error_text(e);
                let ghost head = out@;
                put(&mut out, detail.as_str());
                proof {
                    assert(out@.take(head.len() as int) =~= head);
                }
            },
            MediaError::Cancelled => put(&mut out, "media operation cancelled"),
            MediaError::InvalidLimits(m) => {
                put(&mut out, "invalid media limits: ");
                put(&mut out, m);
            },
            MediaError::InvalidHttpOptions(m) => {
                put(&mut out, "invalid HTTP range options: ");
                put(&mut out, m);
            },
            MediaError::ProbeLimitExceeded { limit } => {
                put(&mut out, "media probe exceeded its ");
                add_number(&mut out, *limit);
                put(&mut out, "-byte limit");
            },
            MediaError::NoAudioTrack => put(&mut out, "media contains no supported audio track"),
            MediaError::UnsupportedContainer(c) => {
                put(&mut out, "unsupported media container: ");
                put(&mut out, c.as_str());
            },
            MediaError::UnsupportedCodec(c) => {
                put(&mut out, "unsupported audio codec: ");
                put(&mut out, c.as_str());
            },
            MediaError::UnsupportedCodecProfile { codec, profile } => {
                put(&mut out, "unsupported ");
                put(&mut out, codec);
                put(&mut out, " profile: ");
                put(&mut out, profile);
            },
            MediaError::PacketTooLarge { actual, limit } => {
                put(&mut out, "media packet has ");
                add_number(&mut out, *actual as u64);
                put(&mut out, " bytes; limit is ");
                add_number(&mut out, *limit as u64);
            },
            MediaError::CodecConfigTooLarge { actual, limit } => {
                put(&mut out, "codec configuration has ");
                add_number(&mut out, *actual as u64);
                put(&mut out, " bytes; limit is ");
                add_number(&mut out, *limit as u64);
            },
            MediaError::CodecProbeLimitExceeded { actual, limit } => {
                put(&mut out, "codec profile probe consumed ");
                add_number(&mut out, *actual as u64);
                put(&mut out, " bytes; limit is ");
                add_number(&mut out, *limit as u64);
            },
            MediaError::PcmFrameTooLarge { actual, limit } => {
                put(&mut out, "decoded frame has ");
                add_number(&mut out, *actual as u64);
                put(&mut out, " samples; limit is ");
                add_number(&mut out, *limit as u64);
            },
            MediaError::OutputBufferTooSmall { required, capacity } => {
                put(&mut out, "reusable output capacity is ");
                add_number(&mut out, *capacity as u64);
                put(&mut out, "; ");
                add_number(&mut out, *required as u64);
                put(&mut out, " elements are required");
            },
            MediaError::DecodeErrorLimitExceeded { limit } => {
                put(&mut out, "more than ");
                add_number(&mut out, *limit as u64);
                put(&mut out, " consecutive packets failed to decode");
            },
            MediaError::DecodeDelayLimitExceeded { limit } => {
                put(&mut out, "decoder buffered more than ");
                add_number(&mut out, *limit as u64);
                put(&mut out, " packet timestamps without output");
            },
            MediaError::WrongOutputKind { codec } => {
                put(&mut out, "the ");
                put(&mut out, codec_name(*codec));
                put(&mut out, " track does not produce this output kind");
            },
            MediaError::Backend { operation, message } => {
                put(&mut out, "media backend failed during ");
                put(&mut out, operation);
                put(&mut out, ": ");
                put(&mut out, message.as_str());
            },
        }
        proof {
            assert(out@.take(out@.len() as int) =~= out@);
        }
        finish(out)
    }
}

/// The text of an MPEG-TS error.
pub open spec fn spec_mpeg_ts_message(error: MpegTsError) -> Seq<char> {
    match error {
        MpegTsError::InvalidLimits(m) => "invalid MPEG-TS limits: "@ + m@,
        MpegTsError::TruncatedPacket { trailing_bytes } => "MPEG-TS input ends with a "@ + dec(
            trailing_bytes as int,
        ) + "-byte partial packet"@,
        MpegTsError::TooManyPackets { actual, limit } => "MPEG-TS input has "@ + dec(actual as int)
            + " packets; limit is "@ + dec(limit as int),
        MpegTsError::InvalidPacket { packet, reason } => "invalid MPEG-TS packet "@ + dec(
            packet as int,
        ) + ": "@ + reason@,
        MpegTsError::Continuity { pid, expected, actual } => "MPEG-TS PID 0x"@ + hex_text_of(
            pid as nat,
        ) + " continuity expected "@ + dec(expected as int) + ", received "@ + dec(actual as int),
        MpegTsError::PsiSectionTooLarge { actual, limit } => "MPEG-TS PSI section has "@ + dec(
            actual as int,
        ) + " bytes; limit is "@ + dec(limit as int),
        MpegTsError::InvalidPsi(m) => "invalid MPEG-TS PSI: "@ + m@,
        MpegTsError::TruncatedPsi => "MPEG-TS PSI section is truncated"@,
        MpegTsError::MissingProgramMap => "MPEG-TS PAT did not select a program map"@,
        MpegTsError::MissingAdtsStream => "MPEG-TS PMT did not declare an ADTS stream"@,
        MpegTsError::InvalidPes(m) => "invalid MPEG-TS PES: "@ + m@,
        MpegTsError::TruncatedPes => "MPEG-TS PES packet is truncated"@,
        MpegTsError::PesPayloadTooLarge { actual, limit } => "MPEG-TS PES payload has "@ + dec(
            actual as int,
        ) + " bytes; limit is "@ + dec(limit as int),
        MpegTsError::MissingAdtsPayload => "MPEG-TS ADTS stream has no PES payload"@,
        MpegTsError::MetadataTooLarge { actual, limit } => "MPEG-TS metadata string has "@ + dec(
            actual as int,
        ) + " bytes; limit is "@ + dec(limit as int),
    }
}

impl MpegTsError {
    pub fn message(&self) -> (text: String)
        ensures
            text@ == spec_mpeg_ts_message(*self),
    {
        let mut out: Vec<char> = Vec::new();
        match self {
            MpegTsError::InvalidLimits(m) => {
                put(&mut out, "invalid MPEG-TS limits: ");
                put(&mut out, m);
            },
            MpegTsError::TruncatedPacket { trailing_bytes } => {
                put(&mut out, "MPEG-TS input ends with a ");
                add_number(&mut out, *trailing_bytes as u64);
                put(&mut out, "-byte partial packet");
            },
            MpegTsError::TooManyPackets { actual, limit } => {
                put(&mut out, "MPEG-TS input has ");
                add_number(&mut out, *actual as u64);
                put(&mut out, " packets; limit is ");
                add_number(&mut out, *limit as u64);
            },
            MpegTsError::InvalidPacket { packet, reason } => {
                put(&mut out, "invalid MPEG-TS packet ");
                add_number(&mut out, *packet as u64);
                put(&mut out, ": ");
                put(&mut out, reason);
            },
            MpegTsError::Continuity { pid, expected, actual } => {
                put(&mut out, "MPEG-TS PID 0x");
                let mut hex = hex_string(*pid);
                let ghost before = out@;
                let ghost digits = hex@;
                out.append(&mut hex);
                proof {
                    assert(out@ =~= before + digits);
                }
                put(&mut out, " continuity expected ");
                add_number(&mut out, *expected as u64);
                put(&mut out, ", received ");
                add_number(&mut out, *actual as u64);
            },
            MpegTsError::PsiSectionTooLarge { actual, limit } => {
                put(&mut out, "MPEG-TS PSI section has ");
                add_number(&mut out, *actual as u64);
                put(&mut out, " bytes; limit is ");
                add_number(&mut out, *limit as u64);
            },
            MpegTsError::InvalidPsi(m) => {
                put(&mut out, "invalid MPEG-TS PSI: ");
                put(&mut out, m);
            },
            MpegTsError::TruncatedPsi => put(&mut out, "MPEG-TS PSI section is truncated"),
            MpegTsError::MissingProgramMap => put(&mut out, "MPEG-TS PAT did not select a program map"),
            MpegTsError::MissingAdtsStream => put(&mut out, "MPEG-TS PMT did not declare an ADTS stream"),
            MpegTsError::InvalidPes(m) => {
                put(&mut out, "invalid MPEG-TS PES: ");
                put(&mut out, m);
            },
            MpegTsError::TruncatedPes => put(&mut out, "MPEG-TS PES packet is truncated"),
            MpegTsError::PesPayloadTooLarge { actual, limit } => {
                put(&mut out, "MPEG-TS PES payload has ");
                add_number(&mut out, *actual as u64);
                put(&mut out, " bytes; limit is ");
                add_number(&mut out, *limit as u64);
            },
            MpegTsError::MissingAdtsPayload => put(&mut out, "MPEG-TS ADTS stream has no PES payload"),
            MpegTsError::MetadataTooLarge { actual, limit } => {
                put(&mut out, "MPEG-TS metadata string has ");
                add_number(&mut out, *actual as u64);
                put(&mut out, " bytes; limit is ");
                add_number(&mut out, *limit as u64);
            },
        }
        finish(out)
    }
}

/// The text of a playlist error.
pub open spec fn spec_playlist_message(error: PlaylistError) -> Seq<char> {
    match error {
        PlaylistError::InvalidLimits(m) => "invalid playlist limits: "@ + m@,
        PlaylistError::TooLarge { actual, limit } => "playlist has "@ + dec(actual as int)
            + " bytes; limit is "@ + dec(limit as int),
        PlaylistError::LineTooLong { actual, limit } => "playlist line has "@ + dec(actual as int)
            + " bytes; limit is "@ + dec(limit as int),
        PlaylistError::TooManyEntries { limit } => "playlist contains more than "@ + dec(
            limit as int,
        ) + " entries"@,
        PlaylistError::InvalidReference(m) => "invalid playlist reference: "@ + m@,
    }
}

impl PlaylistError {
    pub fn message(&self) -> (text: String)
        ensures
            text@ == spec_playlist_message(*self),
    {
        let mut out: Vec<char> = Vec::new();
        match self {
            PlaylistError::InvalidLimits(m) => {
                put(&mut out, "invalid playlist limits: ");
                put(&mut out, m);
            },
            PlaylistError::TooLarge { actual, limit } => {
                put(&mut out, "playlist has ");
                add_number(&mut out, *actual as u64);
                put(&mut out, " bytes; limit is ");
                add_number(&mut out, *limit as u64);
            },
            PlaylistError::LineTooLong { actual, limit } => {
                put(&mut out, "playlist line has ");
                add_number(&mut out, *actual as u64);
                put(&mut out, " bytes; limit is ");
                add_number(&mut out, *limit as u64);
            },
            PlaylistError::TooManyEntries { limit } => {
                put(&mut out, "playlist contains more than ");
                add_number(&mut out, *limit as u64);
                put(&mut out, " entries");
            },
            PlaylistError::InvalidReference(m) => {
                put(&mut out, "invalid playlist reference: ");
                put(&mut out, m);
            },
        }
        finish(out)
    }
}

/// The text `Debug` gives a duration of some seconds and nanoseconds (such as `1.5s` or
/// `250ms`).
pub uninterp spec fn duration_debug_text(secs: u64, nanos: u32) -> Seq<char>;

/// Builds a `std::time::Duration` from seconds and nanoseconds and formats it with `Debug`.
/// Its unit choice and rounding take pages to state, so the text is named
/// [`duration_debug_text`], a function of the two numbers alone. The nanoseconds are below a
/// second, so the construction cannot overflow.
#[verifier::external_body]
fn duration_debug(secs: u64, nanos: u32) -> (text: String)
    requires
        nanos < 1_000_000_000,
    ensures
        text@ == duration_debug_text(secs, nanos),
{
    format!("{:?}", std::time::Duration::new(secs, nanos))
}

pub open spec fn duration_text(d: Duration) -> Seq<char> {
    duration_debug_text((d@ / 1_000_000_000) as u64, (d@ % 1_000_000_000) as u32)
}

fn add_duration(out: &mut Vec<char>, d: &Duration)
    ensures
        final(out)@ == old(out)@ + duration_text(*d),
{
    let text = duration_debug(d.as_secs(), d.subsec_nanos());
    put(out, text.as_str());
}

impl HlsError {
    /// The error's text; a media or playlist failure gives that error's text.
    pub fn message(&self) -> (text: String)
        ensures
            match *self {
                HlsError::InvalidLimits(m) => text@ == "invalid HLS limits: "@ + m@,
                HlsError::InvalidPlaylist(m) => text@ == "invalid HLS playlist: "@ + m@,
                HlsError::TooManyVariants { limit } => text@ == "HLS playlist contains more than "@
                    + dec(limit as int) + " variants"@,
                HlsError::TooManySegments { limit } => text@ == "HLS playlist contains more than "@
                    + dec(limit as int) + " segments"@,
                HlsError::SegmentDurationExceeded { actual, limit } => text@
                    == "HLS segment duration "@ + duration_text(actual) + " exceeds the "@
                    + duration_text(limit) + " limit"@,
                HlsError::PlaylistDurationExceeded { actual, limit } => text@
                    == "HLS playlist duration "@ + duration_text(actual) + " exceeds the "@
                    + duration_text(limit) + " limit"@,
                HlsError::UnsupportedFeature(f) => text@ == "unsupported HLS feature: "@ + f@,
                HlsError::LiveReloadLimitExceeded { limit } => text@
                    == "HLS live playlist made no progress after "@ + dec(limit as int)
                    + " reloads"@,
                HlsError::NotVod => text@ == "HLS media playlist is not finite VOD"@,
                HlsError::Media(e) => has_prefix(text@, spec_media_message(e)) && (!(e is Io)
                    ==> text@ == spec_media_message(e)),
                HlsError::Playlist(e) => text@ == spec_playlist_message(e),
            },
    {
        let mut out: Vec<char> = Vec::new();
        match self {
            HlsError::InvalidLimits(m) => {
                put(&mut out, "invalid HLS limits: ");
                put(&mut out, m);
            },
            HlsError::InvalidPlaylist(m) => {
                put(&mut out, "invalid HLS playlist: ");
                put(&mut out, m);
            },
            HlsError::TooManyVariants { limit } => {
                put(&mut out, "HLS playlist contains more than ");
                add_number(&mut out, *limit as u64);
                put(&mut out, " variants");
            },
            HlsError::TooManySegments { limit } => {
                put(&mut out, "HLS playlist contains more than ");
                add_number(&mut out, *limit as u64);
                put(&mut out, " segments");
            },
            HlsError::SegmentDurationExceeded { actual, limit } => {
                put(&mut out, "HLS segment duration ");
                add_duration(&mut out, actual);
                put(&mut out, " exceeds the ");
                add_duration(&mut out, limit);
                put(&mut out, " limit");
            },
            HlsError::PlaylistDurationExceeded { actual, limit } => {
                put(&mut out, "HLS playlist duration ");
                add_duration(&mut out, actual);
                put(&mut out, " exceeds the ");
                add_duration(&mut out, limit);
                put(&mut out, " limit");
            },
            HlsError::UnsupportedFeature(f) => {
                put(&mut out, "unsupported HLS feature: ");
                put(&mut out, f);
            },
            HlsError::LiveReloadLimitExceeded { limit } => {
                put(&mut out, "HLS live playlist made no progress after ");
                add_number(&mut out, *limit as u64);
                put(&mut out, " reloads");
            },
            HlsError::NotVod => put(&mut out, "HLS media playlist is not finite VOD"),
            HlsError::Media(e) => {
                return e.message();
            },
            HlsError::Playlist(e) => {
                return e.message();
            },
        }
        finish(out)
    }
}

/// The text of a remote HTTP error, by its class.
pub open spec fn spec_remote_message(kind: RemoteHttpErrorKind) -> &'static str {
    match kind {
        RemoteHttpErrorKind::InvalidOptions => "invalid remote HTTP policy",
        RemoteHttpErrorKind::InvalidRequest => "invalid remote HTTP request",
        RemoteHttpErrorKind::RequestTooLarge => "remote request body exceeds its limit",
        RemoteHttpErrorKind::Cancelled => "remote request cancelled",
        RemoteHttpErrorKind::DestinationDenied => "remote destination rejected by network access policy",
        RemoteHttpErrorKind::Timeout => "remote request timed out",
        RemoteHttpErrorKind::Transport => "remote request transport failed",
        RemoteHttpErrorKind::ResponseTooLarge => "remote response body exceeds its limit",
        RemoteHttpErrorKind::InvalidResponse => "remote response is invalid",
        RemoteHttpErrorKind::Unauthorized => "remote service rejected authentication",
        RemoteHttpErrorKind::Forbidden => "remote service denied the request",
        RemoteHttpErrorKind::NotFound => "remote resource was not found",
        RemoteHttpErrorKind::RateLimited => "remote service rate limit reached",
        RemoteHttpErrorKind::ServerUnavailable => "remote service is unavailable",
        RemoteHttpErrorKind::HttpStatus => "remote service returned an unsuccessful status",
    }
}

impl RemoteHttpError {
    pub fn message(&self) -> (text: &'static str)
        ensures
            text == spec_remote_message(self@.kind),
    {
        match self.kind() {
            RemoteHttpErrorKind::InvalidOptions => "invalid remote HTTP policy",
            RemoteHttpErrorKind::InvalidRequest => "invalid remote HTTP request",
            RemoteHttpErrorKind::RequestTooLarge => "remote request body exceeds its limit",
            RemoteHttpErrorKind::Cancelled => "remote request cancelled",
            RemoteHttpErrorKind::DestinationDenied => "remote destination rejected by network access policy",
            RemoteHttpErrorKind::Timeout => "remote request timed out",
            RemoteHttpErrorKind::Transport => "remote request transport failed",
            RemoteHttpErrorKind::ResponseTooLarge => "remote response body exceeds its limit",
            RemoteHttpErrorKind::InvalidResponse => "remote response is invalid",
            RemoteHttpErrorKind::Unauthorized => "remote service rejected authentication",
            RemoteHttpErrorKind::Forbidden => "remote service denied the request",
            RemoteHttpErrorKind::NotFound => "remote resource was not found",
            RemoteHttpErrorKind::RateLimited => "remote service rate limit reached",
            RemoteHttpErrorKind::ServerUnavailable => "remote service is unavailable",
            RemoteHttpErrorKind::HttpStatus => "remote service returned an unsuccessful status",
        }
    }
}

} // verus!
