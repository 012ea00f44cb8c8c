//! The decisions of opening a media session, apart from demuxing and decoding: ADTS and WAVE
//! track checks, the track's sample rate, when an implicit AAC profile must be probed and how
//! that probe is bounded and concluded, and the output layout.
use vstd::prelude::*;

use crate::codec::{parse_audio_specific_config, spec_adts_parse, spec_parse_asc, AdtsConfig};
use crate::media::{Codec, Container, MediaError, MediaLimits};
use crate::text::{chars_of, string_from_chars};
use crate::track::{decimal_string, decimal_text};

verus! {

/// An implicit AAC profile probe reads at most this many packets.
pub const MAX_AAC_PROFILE_PROBE_PACKETS: usize = 64;

/// The AAC sampling frequencies by index.
pub open spec fn adts_rate_index(rate: u32) -> Option<u8> {
    if rate == 96000 {
        Some(0u8)
    } else if rate == 88200 {
        Some(1u8)
    } else if rate == 64000 {
        Some(2u8)
    } else if rate == 48000 {
        Some(3u8)
    } else if rate == 44100 {
        Some(4u8)
    } else if rate == 32000 {
        Some(5u8)
    } else if rate == 24000 {
        Some(6u8)
    } else if rate == 22050 {
        Some(7u8)
    } else if rate == 16000 {
        Some(8u8)
    } else if rate == 12000 {
        Some(9u8)
    } else if rate == 11025 {
        Some(10u8)
    } else if rate == 8000 {
        Some(11u8)
    } else if rate == 7350 {
        Some(12u8)
    } else {
        None
    }
}

/// An AAC-LC configuration from a track's declared sample rate and channel count: the rate
/// must be a standard AAC rate and the track mono or stereo.
pub open spec fn spec_adts_from_params(sample_rate: Option<u32>, channels: Option<usize>) -> Option<
    AdtsConfig,
> {
    match (sample_rate, channels) {
        (Some(rate), Some(count)) => match adts_rate_index(rate) {
            Some(index) => if 1 <= count <= 2 {
                Some(
                    AdtsConfig {
                        audio_object_type: 2,
                        sample_rate_index: index,
                        sample_rate: rate,
                        channel_configuration: count as u8,
                    },
                )
            } else {
                None
            },
            None => None,
        },
        _ => None,
    }
}

pub fn adts_config_from_params(sample_rate: Option<u32>, channels: Option<usize>) -> (result: Option<
    AdtsConfig,
>)
    ensures
        result == spec_adts_from_params(sample_rate, channels),
{
    let rate = sample_rate?;
    let count = channels?;
    let rates: [u32; 13] = [
        96000,
        88200,
        64000,
        48000,
        44100,
        32000,
        24000,
        22050,
        16000,
        12000,
        11025,
        8000,
        7350,
    ];
    let mut index: usize = 0;
    while index < 13 && rates[index] != rate
        invariant
            index <= 13,
            rates@ == seq![
                96000u32,
                88200,
                64000,
                48000,
                44100,
                32000,
                24000,
                22050,
                16000,
                12000,
                11025,
                8000,
                7350,
            ],
            forall|j: int| 0 <= j < index ==> rates@[j] != rate,
        decreases 13 - index,
    {
        index = index + 1;
    }
    if index == 13 {
        return None;
    }
    if !(1 <= count && count <= 2) {
        return None;
    }
    Some(
        AdtsConfig {
            audio_object_type: 2,
            sample_rate_index: index as u8,
            sample_rate: rate,
            channel_configuration: count as u8,
        },
    )
}

/// The configuration of an ADTS track: the inspected header, else the declared parameters; it
/// must be AAC-LC. The caller applies its sample rate and AudioSpecificConfig to the track.
pub fn adts_track_config(inspected: Option<AdtsConfig>, declared: Option<AdtsConfig>) -> (result:
    Result<AdtsConfig, MediaError>)
    ensures
        match (if inspected is Some {
            inspected
        } else {
            declared
        }) {
            None => result matches Err(MediaError::UnsupportedCodecProfile { codec, profile })
                && codec == "AAC" && profile
                == "ADTS header does not declare bounded AAC-LC parameters",
            Some(c) => if c.audio_object_type != 2 {
                result matches Err(MediaError::UnsupportedCodecProfile { codec, profile })
                    && codec == "AAC" && profile == "ADTS audio object type is not AAC-LC"
            } else {
                result matches Ok(r) && r == c
            },
        },
{
    let config = match inspected {
        Some(c) => c,
        None => match declared {
            Some(c) => c,
            None => {
                return Err(
                    MediaError::UnsupportedCodecProfile {
                        codec: "AAC",
                        profile: "ADTS header does not declare bounded AAC-LC parameters",
                    },
                );
            },
        },
    };
    if config.audio_object_type != 2 {
        return Err(
            MediaError::UnsupportedCodecProfile {
                codec: "AAC",
                profile: "ADTS audio object type is not AAC-LC",
            },
        );
    }
    Ok(config)
}

/// The channel count of a track, which must fit a `u16`.
pub fn source_channel_count(channels: Option<usize>, codec_name: &str) -> (result: Result<
    u16,
    MediaError,
>)
    ensures
        match channels {
            Some(n) => if n <= u16::MAX {
                result == Ok::<u16, MediaError>(n as u16)
            } else {
                result matches Err(MediaError::UnsupportedCodec(m)) && m@ == codec_name@
                    + " without a supported channel count"@
            },
            None => result matches Err(MediaError::UnsupportedCodec(m)) && m@ == codec_name@
                + " without a supported channel count"@,
        },
{
    match channels {
        Some(n) => if n <= 65535 {
            return Ok(n as u16);
        },
        None => {},
    }
    let mut text = chars_of(codec_name);
    let suffix = chars_of(" without a supported channel count");
    let ghost start = text@;
    let mut i: usize = 0;
    while i < suffix.len()
        invariant
            i <= suffix@.len(),
            text@ == start + suffix@.take(i as int),
        decreases suffix@.len() - i,
    {
        text.push(suffix[i]);
        proof {
            assert(suffix@.take(i + 1) =~= suffix@.take(i as int).push(suffix@[i as int]));
        }
        i = i + 1;
    }
    proof {
        assert(suffix@.take(i as int) =~= suffix@);
    }
    Err(MediaError::UnsupportedCodec(string_from_chars(text.as_slice())))
}

fn append_text(out: &mut Vec<char>, text: &str)
    ensures
        final(out)@ == old(out)@ + text@,
{
    let piece = chars_of(text);
    let mut j: usize = 0;
    while j < piece.len()
        invariant
            j <= piece@.len(),
            piece@ == text@,
            out@ == old(out)@ + piece@.take(j as int),
        decreases piece@.len() - j,
    {
        out.push(piece[j]);
        proof {
            assert(piece@.take(j + 1) =~= piece@.take(j as int).push(piece@[j as int]));
        }
        j = j + 1;
    }
    proof {
        assert(piece@.take(j as int) =~= piece@);
    }
}

fn concat3(a: &str, b: &str, c: &str) -> (text: String)
    ensures
        text@ == a@ + b@ + c@,
{
    let mut out: Vec<char> = Vec::new();
    append_text(&mut out, a);
    append_text(&mut out, b);
    append_text(&mut out, c);
    proof {
        assert(Seq::<char>::empty() + a@ =~= a@);
    }
    string_from_chars(out.as_slice())
}

/// A WAVE PCM track needs a sample rate in 100..=384000 Hz and one or two channels; the codec
/// name is that of the track's codec, for the message.
pub fn validate_wave_track_params(
    sample_rate: Option<u32>,
    channels: Option<usize>,
    codec_name: &str,
) -> (result: Result<(), MediaError>)
    ensures
        match sample_rate {
            None => result matches Err(MediaError::UnsupportedCodec(m)) && m@
                == "WAVE PCM without a sample rate"@,
            Some(rate) => if !(100 <= rate <= 384000) {
                result matches Err(MediaError::UnsupportedCodec(m)) && m@ == "WAVE PCM sample rate "@
                    + decimal_text(rate as nat) + " is outside 100..=384000 Hz"@
            } else {
                match channels {
                    None => result matches Err(MediaError::UnsupportedCodec(m)) && m@
                        == codec_name@ + " without a supported channel count"@,
                    Some(n) => if n > u16::MAX {
                        result matches Err(MediaError::UnsupportedCodec(m)) && m@
                            == codec_name@ + " without a supported channel count"@
                    } else if !(1 <= n <= 2) {
                        result matches Err(MediaError::UnsupportedCodec(m)) && m@
                            == "WAVE PCM channel count "@ + decimal_text(n as nat)
                            + " is outside Mantle's mono/stereo scope"@
                    } else {
                        result is Ok
                    },
                }
            },
        },
{
    let rate = match sample_rate {
        Some(r) => r,
        None => {
            return Err(
                MediaError::UnsupportedCodec(
                    string_from_chars(chars_of("WAVE PCM without a sample rate").as_slice()),
                ),
            );
        },
    };
    if !(100 <= rate && rate <= 384000) {
        let digits = decimal_string(rate as u64);
        let m = concat3("WAVE PCM sample rate ", digits.as_str(), " is outside 100..=384000 Hz");
        return Err(MediaError::UnsupportedCodec(m));
    }
    let count = source_channel_count(channels, codec_name)?;
    if !(1 <= count && count <= 2) {
        let digits = decimal_string(count as u64);
        let m = concat3(
            "WAVE PCM channel count ",
            digits.as_str(),
            " is outside Mantle's mono/stereo scope",
        );
        return Err(MediaError::UnsupportedCodec(m));
    }
    Ok(())
}

/// The sample rate a session reports: the EBML output rate, else the track's declared rate.
pub fn track_sample_rate(ebml_output_sample_rate: Option<u32>, declared: Option<u32>, codec_name: &str) -> (result: Result<u32, MediaError>)
    ensures
        match (ebml_output_sample_rate, declared) {
            (Some(r), _) => result == Ok::<u32, MediaError>(r),
            (None, Some(r)) => result == Ok::<u32, MediaError>(r),
            (None, None) => result matches Err(MediaError::UnsupportedCodec(m)) && m@
                == codec_name@ + " without a sample rate"@,
        },
{
    match ebml_output_sample_rate {
        Some(r) => Ok(r),
        None => match declared {
            Some(r) => Ok(r),
            None => {
                let m = concat3(codec_name, " without a sample rate", "");
                proof {
                    reveal_strlit("");
                    assert(m@ =~= codec_name@ + " without a sample rate"@);
                }
                Err(MediaError::UnsupportedCodec(m))
            },
        },
    }
}

/// AAC-LC signaled without an explicit profile must be probed in ADTS streams and in Matroska
/// tracks that declare no output sample rate.
pub open spec fn spec_needs_aac_probe(codec: Codec, container: Container, ebml_output_sample_rate: Option<u32>) -> bool {
    codec == Codec::AacLc && ((container == Container::Matroska && ebml_output_sample_rate is None)
        || container == Container::Adts)
}

pub fn needs_implicit_aac_probe(codec: Codec, container: Container, ebml_output_sample_rate: Option<u32>) -> (result: bool)
    ensures
        result == spec_needs_aac_probe(codec, container, ebml_output_sample_rate),
{
    codec == Codec::AacLc && ((container == Container::Matroska && ebml_output_sample_rate.is_none())
        || container == Container::Adts)
}

/// The channel count and seekability a session reports: HE-AAC decodes to stereo, and an ADTS
/// stream is never seekable.
pub fn session_layout(codec: Codec, source_channels: u16, container: Container, seekable: bool) -> (result: (u16, bool))
    ensures
        result.0 == (if codec == Codec::HeAacV1 || codec == Codec::HeAacV2 {
            2
        } else {
            source_channels
        }),
        result.1 == (seekable && container != Container::Adts),
{
    let channels = if codec == Codec::HeAacV1 || codec == Codec::HeAacV2 {
        2
    } else {
        source_channels
    };
    (channels, seekable && container != Container::Adts)
}

// ---------------------------------------------------------------------------------------------
// Implicit AAC profile probe
// ---------------------------------------------------------------------------------------------

/// The HE-AAC profile to try for an implicitly signaled AAC-LC track and its core sample rate:
/// the AudioSpecificConfig must be present, valid and plain AAC-LC; mono tracks try HE-AAC v2.
pub open spec fn spec_probe_candidate(extra_data: Option<Seq<u8>>) -> Result<
    (Codec, u32),
    &'static str,
> {
    match extra_data {
        None => Err("implicit profile probe requires AudioSpecificConfig"),
        Some(bytes) => match spec_parse_asc(bytes) {
            None => Err("implicit profile probe received invalid AudioSpecificConfig"),
            Some(c) => if c.audio_object_type != 2 || c.explicit_he {
                Err("implicit profile probe requires AAC-LC core signaling")
            } else if c.channel_configuration == 1 {
                Ok((Codec::HeAacV2, c.core_sample_rate))
            } else {
                Ok((Codec::HeAacV1, c.core_sample_rate))
            },
        },
    }
}

pub fn aac_probe_candidate(extra_data: Option<&[u8]>) -> (result: Result<(Codec, u32), MediaError>)
    ensures
        match spec_probe_candidate(
            match extra_data {
                Some(b) => Some(b@),
                None => None,
            },
        ) {
            Ok(c) => result == Ok::<(Codec, u32), MediaError>(c),
            Err(profile) => result matches Err(
                MediaError::UnsupportedCodecProfile { codec: c, profile: p },
            ) && c == "AAC" && p == profile,
        },
{
    let bytes = match extra_data {
        Some(b) => b,
        None => {
            return Err(
                MediaError::UnsupportedCodecProfile {
                    codec: "AAC",
                    profile: "implicit profile probe requires AudioSpecificConfig",
                },
            );
        },
    };
    let config = match parse_audio_specific_config(bytes) {
        Some(c) => c,
        None => {
            return Err(
                MediaError::UnsupportedCodecProfile {
                    codec: "AAC",
                    profile: "implicit profile probe received invalid AudioSpecificConfig",
                },
            );
        },
    };
    if config.audio_object_type != 2 || config.explicit_he {
        return Err(
            MediaError::UnsupportedCodecProfile {
                codec: "AAC",
                profile: "implicit profile probe requires AAC-LC core signaling",
            },
        );
    }
    if config.channel_configuration == 1 {
        Ok((Codec::HeAacV2, config.core_sample_rate))
    } else {
        Ok((Codec::HeAacV1, config.core_sample_rate))
    }
}

/// Admits one packet of the probed track: it must fit the packet limit, and all probed packets
/// together the codec probe limit. Returns the new probe byte total.
pub fn admit_probe_packet(probe_bytes: usize, packet_bytes: usize, limits: &MediaLimits) -> (result:
    Result<usize, MediaError>)
    ensures
        packet_bytes > limits.max_packet_bytes ==> result == Err::<usize, MediaError>(
            MediaError::PacketTooLarge { actual: packet_bytes, limit: limits.max_packet_bytes },
        ),
        packet_bytes <= limits.max_packet_bytes && probe_bytes + packet_bytes > usize::MAX
            ==> result == Err::<usize, MediaError>(
            MediaError::CodecProbeLimitExceeded {
                actual: usize::MAX,
                limit: limits.max_codec_probe_bytes,
            },
        ),
        packet_bytes <= limits.max_packet_bytes && probe_bytes + packet_bytes <= usize::MAX
            && probe_bytes + packet_bytes > limits.max_codec_probe_bytes ==> result == Err::<
            usize,
            MediaError,
        >(
            MediaError::CodecProbeLimitExceeded {
                actual: (probe_bytes + packet_bytes) as usize,
                limit: limits.max_codec_probe_bytes,
            },
        ),
        packet_bytes <= limits.max_packet_bytes && probe_bytes + packet_bytes
            <= limits.max_codec_probe_bytes ==> result == Ok::<usize, MediaError>(
            (probe_bytes + packet_bytes) as usize,
        ),
{
    if packet_bytes > limits.max_packet_bytes {
        return Err(
            MediaError::PacketTooLarge { actual: packet_bytes, limit: limits.max_packet_bytes },
        );
    }
    let total = match probe_bytes.checked_add(packet_bytes) {
        Some(t) => t,
        None => {
            return Err(
                MediaError::CodecProbeLimitExceeded {
                    actual: usize::MAX,
                    limit: limits.max_codec_probe_bytes,
                },
            );
        },
    };
    if total > limits.max_codec_probe_bytes {
        return Err(
            MediaError::CodecProbeLimitExceeded { actual: total, limit: limits.max_codec_probe_bytes },
        );
    }
    Ok(total)
}

/// What decoding one probed packet gave: nothing yet, or a frame at some sample rate.
#[derive(Clone, Copy, Debug, PartialEq, Eq, Structural)]
pub enum ProbeDecode {
    NeedMoreInput,
    Frame(u32),
}

/// The profile a decoded frame reveals: a frame rate above the core rate means the HE-AAC
/// candidate, otherwise plain AAC-LC, at the frame's rate.
pub fn probe_outcome(decoded: ProbeDecode, candidate: Codec, core_sample_rate: u32) -> (result: Option<
    (Codec, u32),
>)
    ensures
        match decoded {
            ProbeDecode::NeedMoreInput => result is None,
            ProbeDecode::Frame(rate) => result == Some(
                if rate > core_sample_rate {
                    (candidate, rate)
                } else {
                    (Codec::AacLc, rate)
                },
            ),
        },
{
    match decoded {
        ProbeDecode::NeedMoreInput => None,
        ProbeDecode::Frame(rate) => if rate > core_sample_rate {
            Some((candidate, rate))
        } else {
            Some((Codec::AacLc, rate))
        },
    }
}

/// The error when no frame resolved the profile within the probe bounds.
pub fn unresolved_probe() -> (error: MediaError)
    ensures
        error matches MediaError::UnsupportedCodecProfile { codec, profile } && codec == "AAC"
            && profile == "implicit profile was not resolved within configured probe bounds",
{
    MediaError::UnsupportedCodecProfile {
        codec: "AAC",
        profile: "implicit profile was not resolved within configured probe bounds",
    }
}

// ---------------------------------------------------------------------------------------------
// Probe hints and decode bounds
// ---------------------------------------------------------------------------------------------

/// Whether an extension hint names the given lower-case extension, ignoring ASCII case.
pub open spec fn hint_is(extension: Option<Seq<char>>, lower: Seq<char>) -> bool {
    extension matches Some(e) && crate::route_util::ascii_lowercase(e) == lower
}

fn hint_matches(extension: Option<&str>, lower: &str) -> (result: bool)
    ensures
        result == hint_is(
            match extension {
                Some(e) => Some(e@),
                None => None,
            },
            lower@,
        ),
{
    match extension {
        Some(e) => crate::playlist::seq_equal(
            crate::route_util::to_ascii_lowercase(chars_of(e).as_slice()).as_slice(),
            chars_of(lower).as_slice(),
        ),
        None => false,
    }
}

pub open spec fn opt_str_view(extension: Option<&str>) -> Option<Seq<char>> {
    match extension {
        Some(e) => Some(e@),
        None => None,
    }
}

/// The EBML container an input that cannot be inspected is taken to hold: WebM for a `webm`
/// hint, Matroska for an `mkv` hint (either case), none otherwise.
pub fn hinted_ebml_container(extension: Option<&str>) -> (container: Option<Container>)
    ensures
        hint_is(opt_str_view(extension), "webm"@) ==> container == Some(Container::WebM),
        !hint_is(opt_str_view(extension), "webm"@) && hint_is(opt_str_view(extension), "mkv"@)
            ==> container == Some(Container::Matroska),
        !hint_is(opt_str_view(extension), "webm"@) && !hint_is(opt_str_view(extension), "mkv"@)
            ==> container is None,
{
    if hint_matches(extension, "webm") {
        Some(Container::WebM)
    } else if hint_matches(extension, "mkv") {
        Some(Container::Matroska)
    } else {
        None
    }
}

/// ADTS inspection is for a seekable input without EBML metadata whose hint is `aac` or `adts`
/// (either case).
pub fn wants_adts_inspection(seekable: bool, ebml_found: bool, extension: Option<&str>) -> (wanted:
    bool)
    ensures
        wanted == (seekable && !ebml_found && (hint_is(opt_str_view(extension), "aac"@) || hint_is(
            opt_str_view(extension),
            "adts"@,
        ))),
{
    seekable && !ebml_found && (hint_matches(extension, "aac") || hint_matches(extension, "adts"))
}

/// The extension handed to the demuxer's probe: `aac` once an ADTS configuration was found,
/// else the caller's hint.
pub fn probe_extension<'a>(adts_found: bool, extension: Option<&'a str>) -> (hint: Option<&'a str>)
    ensures
        adts_found ==> (hint matches Some(h) && h@ == "aac"@),
        !adts_found ==> hint == extension,
{
    if adts_found {
        Some("aac")
    } else {
        extension
    }
}

/// Counts one more decode error in a row (saturating); more than the limit fails.
pub fn note_decode_error(errors: u32, limit: u32) -> (result: Result<u32, MediaError>)
    ensures
        ({
            let next = if errors == u32::MAX {
                u32::MAX as int
            } else {
                errors + 1
            };
            &&& next > limit ==> (result matches Err(MediaError::DecodeErrorLimitExceeded { limit: l })
                && l == limit)
            &&& next <= limit ==> result == Ok::<u32, MediaError>(next as u32)
        }),
{
    let next = errors.saturating_add(1);
    if next > limit {
        return Err(MediaError::DecodeErrorLimitExceeded { limit });
    }
    Ok(next)
}

/// A decoded PCM frame may hold at most the configured number of samples.
pub fn check_pcm_frame(sample_count: usize, limits: &MediaLimits) -> (result: Result<(), MediaError>)
    ensures
        sample_count <= limits.max_pcm_samples_per_frame ==> result is Ok,
        sample_count > limits.max_pcm_samples_per_frame ==> (result matches Err(
            MediaError::PcmFrameTooLarge { actual, limit },
        ) && actual == sample_count && limit == limits.max_pcm_samples_per_frame),
{
    if sample_count > limits.max_pcm_samples_per_frame {
        return Err(
            MediaError::PcmFrameTooLarge { actual: sample_count, limit: limits.max_pcm_samples_per_frame },
        );
    }
    Ok(())
}

} // verus!
