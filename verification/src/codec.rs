use vstd::prelude::*;

use crate::media::{Codec, MediaError};

verus! {

/// The thirteen sampling frequencies of the AAC sampling-frequency index.
pub open spec fn aac_rate(index: int) -> Option<u32> {
    if index == 0 {
        Some(96_000)
    } else if index == 1 {
        Some(88_200)
    } else if index == 2 {
        Some(64_000)
    } else if index == 3 {
        Some(48_000)
    } else if index == 4 {
        Some(44_100)
    } else if index == 5 {
        Some(32_000)
    } else if index == 6 {
        Some(24_000)
    } else if index == 7 {
        Some(22_050)
    } else if index == 8 {
        Some(16_000)
    } else if index == 9 {
        Some(12_000)
    } else if index == 10 {
        Some(11_025)
    } else if index == 11 {
        Some(8_000)
    } else if index == 12 {
        Some(7_350)
    } else {
        None
    }
}

pub fn aac_sample_rate(index: u32) -> (rate: Option<u32>)
    ensures
        rate == aac_rate(index as int),
{
    if index == 0 {
        Some(96_000)
    } else if index == 1 {
        Some(88_200)
    } else if index == 2 {
        Some(64_000)
    } else if index == 3 {
        Some(48_000)
    } else if index == 4 {
        Some(44_100)
    } else if index == 5 {
        Some(32_000)
    } else if index == 6 {
        Some(24_000)
    } else if index == 7 {
        Some(22_050)
    } else if index == 8 {
        Some(16_000)
    } else if index == 9 {
        Some(12_000)
    } else if index == 10 {
        Some(11_025)
    } else if index == 11 {
        Some(8_000)
    } else if index == 12 {
        Some(7_350)
    } else {
        None
    }
}

// ---------------------------------------------------------------------------------------------
// ADTS headers
// ---------------------------------------------------------------------------------------------

/// The fields of an ADTS header that configure an AAC decoder.
#[derive(Clone, Copy, Debug, PartialEq, Eq)]
pub struct AdtsConfig {
    pub audio_object_type: u8,
    pub sample_rate_index: u8,
    pub sample_rate: u32,
    pub channel_configuration: u8,
}

/// The ADTS header fields, or `None` when the header is not a bounded mono or stereo frame.
pub open spec fn spec_adts_parse(h: Seq<u8>) -> Option<AdtsConfig> {
    if h.len() < 7 || h[0] != 0xff || h[1] & 0xf6 != 0xf0 || h[6] & 3 != 0 {
        None
    } else {
        let header_bytes = if h[1] & 1 != 0 {
            7int
        } else {
            9int
        };
        let frame_bytes = (h[3] & 3) as int * 2048 + h[4] as int * 8 + (h[5] >> 5u8) as int;
        let index = (h[2] >> 2u8) & 15;
        let channels = ((h[2] & 1) << 2u8) | (h[3] >> 6u8);
        if frame_bytes < header_bytes {
            None
        } else if aac_rate(index as int) is None {
            None
        } else if !(1 <= channels <= 2) {
            None
        } else {
            Some(
                AdtsConfig {
                    audio_object_type: (((h[2] >> 6u8) & 3) + 1) as u8,
                    sample_rate_index: index,
                    sample_rate: aac_rate(index as int)->0,
                    channel_configuration: channels,
                },
            )
        }
    }
}

/// The two-byte AudioSpecificConfig: five bits of object type, four of frequency index, four
/// of channel configuration, then three zero bits.
pub open spec fn spec_asc_bytes(c: AdtsConfig) -> (u8, u8) {
    let bits = c.audio_object_type as int * 2048 + c.sample_rate_index as int * 128
        + c.channel_configuration as int * 8;
    ((bits / 256) as u8, (bits % 256) as u8)
}

impl AdtsConfig {
    pub fn parse(header: &[u8]) -> (result: Option<Self>)
        ensures
            result == spec_adts_parse(header@),
    {
        if header.len() < 7 || header[0] != 0xff || header[1] & 0xf6 != 0xf0 || header[6] & 3 != 0 {
            return None;
        }
        let header_bytes: usize = if header[1] & 1 != 0 {
            7
        } else {
            9
        };
        let h3 = header[3];
        let h5 = header[5];
        proof {
            assert(h3 & 3 <= 3) by (bit_vector);
            assert(h5 >> 5u8 <= 7) by (bit_vector);
        }
        let frame_bytes = (h3 & 3) as usize * 2048 + header[4] as usize * 8 + (h5 >> 5u8) as usize;
        if frame_bytes < header_bytes {
            return None;
        }
        let h2 = header[2];
        let index = (h2 >> 2u8) & 15;
        let rate = match aac_sample_rate(index as u32) {
            Some(r) => r,
            None => {
                return None;
            },
        };
        let channels = ((h2 & 1) << 2u8) | (h3 >> 6u8);
        if !(1 <= channels && channels <= 2) {
            return None;
        }
        proof {
            assert((h2 >> 6u8) & 3 <= 3) by (bit_vector);
        }
        Some(
            AdtsConfig {
                audio_object_type: ((h2 >> 6u8) & 3) + 1,
                sample_rate_index: index,
                sample_rate: rate,
                channel_configuration: channels,
            },
        )
    }

    /// The AudioSpecificConfig for this header, big-endian.
    pub fn audio_specific_config(self) -> (bytes: [u8; 2])
        requires
            self.audio_object_type < 32,
            self.sample_rate_index < 16,
            self.channel_configuration < 16,
        ensures
            (bytes[0], bytes[1]) == spec_asc_bytes(self),
    {
        let bits: u16 = self.audio_object_type as u16 * 2048 + self.sample_rate_index as u16 * 128
            + self.channel_configuration as u16 * 8;
        [(bits / 256) as u8, (bits % 256) as u8]
    }
}

// ---------------------------------------------------------------------------------------------
// Bit reading
// ---------------------------------------------------------------------------------------------

/// Bit `i` of a byte string, most significant bit of each byte first.
pub open spec fn bit_at(b: Seq<u8>, i: int) -> u8 {
    (b[i / 8] >> ((7 - i % 8) as u8)) & 1u8
}

/// The value of `count` bits from bit position `pos`, most significant first.
pub open spec fn bits_value(b: Seq<u8>, pos: int, count: nat) -> nat
    decreases count,
{
    if count == 0 {
        0
    } else {
        bits_value(b, pos, (count - 1) as nat) * 2 + bit_at(b, pos + count - 1) as nat
    }
}

pub open spec fn pow2(n: nat) -> nat
    decreases n,
{
    if n == 0 {
        1
    } else {
        2 * pow2((n - 1) as nat)
    }
}

pub proof fn lemma_bits_value_bound(b: Seq<u8>, pos: int, count: nat)
    ensures
        bits_value(b, pos, count) < pow2(count),
    decreases count,
{
    if count > 0 {
        lemma_bits_value_bound(b, pos, (count - 1) as nat);
        let x = b[(pos + count - 1) / 8];
        let s = (7 - (pos + count - 1) % 8) as u8;
        assert((x >> s) & 1u8 <= 1) by (bit_vector);
    }
}

/// Reading `count` bits at `pos`: absent when more than 32 bits are asked or the bytes end.
pub open spec fn read_bits(b: Seq<u8>, pos: int, count: int) -> Option<u32> {
    if count < 0 || count > 32 || b.len() * 8 > usize::MAX || pos + count > b.len() * 8 {
        None
    } else {
        Some(bits_value(b, pos, count as nat) as u32)
    }
}

/// A most-significant-bit-first reader over a byte string.
pub struct BitReader<'a> {
    bytes: &'a [u8],
    position: usize,
}

impl<'a> BitReader<'a> {
    pub closed spec fn spec_bytes(&self) -> Seq<u8> {
        self.bytes@
    }

    pub closed spec fn spec_position(&self) -> int {
        self.position as int
    }

    pub closed spec fn wf(&self) -> bool {
        self.position <= self.bytes@.len() * 8
    }

    pub fn new(bytes: &'a [u8]) -> (reader: Self)
        ensures
            reader.spec_bytes() == bytes@,
            reader.spec_position() == 0,
            reader.wf(),
    {
        BitReader { bytes, position: 0 }
    }

    /// Reads `count` bits, or fails without moving when fewer remain or more than 32 are asked.
    pub fn read(&mut self, count: usize) -> (result: Option<u32>)
        requires
            old(self).wf(),
        ensures
            final(self).wf(),
            final(self).spec_bytes() == old(self).spec_bytes(),
            result == read_bits(old(self).spec_bytes(), old(self).spec_position(), count as int),
            result is Some ==> final(self).spec_position() == old(self).spec_position() + count,
            result is None ==> final(self).spec_position() == old(self).spec_position(),
    {
        let len = self.bytes.len();
        if count > 32 || len > usize::MAX / 8 || self.position > len * 8 || count > len * 8
            - self.position {
            return None;
        }
        assert(pow2(31) == 2147483648) by {
            reveal_with_fuel(pow2, 32);
        }
        let start = self.position;
        let mut value: u32 = 0;
        let mut k: usize = 0;
        while k < count
            invariant
                k <= count <= 32,
                start + count <= len * 8,
                len * 8 <= usize::MAX,
                pow2(31) == 2147483648,
                self.bytes == old(self).bytes,
                len == self.bytes@.len(),
                self.position == start + k,
                value == bits_value(self.bytes@, start as int, k as nat),
            decreases count - k,
        {
            let byte = self.bytes[self.position / 8];
            let shift = (7 - self.position % 8) as u8;
            let bit = (byte >> shift) & 1u8;
            proof {
                lemma_bits_value_bound(self.bytes@, start as int, k as nat);
                lemma_pow2_le(k as nat, 31);
                assert(bit <= 1) by (bit_vector)
                    requires
                        bit == (byte >> shift) & 1u8,
                ;
            }
            value = value * 2 + bit as u32;
            self.position = self.position + 1;
            k = k + 1;
        }
        Some(value)
    }
}

pub proof fn lemma_pow2_le(k: nat, n: nat)
    requires
        k <= n,
    ensures
        pow2(k) <= pow2(n),
    decreases n,
{
    if k < n {
        lemma_pow2_le(k, (n - 1) as nat);
    }
}

// ---------------------------------------------------------------------------------------------
// AudioSpecificConfig
// ---------------------------------------------------------------------------------------------

/// The AudioSpecificConfig fields that select an AAC decoder profile.
#[derive(Clone, Copy, Debug, PartialEq, Eq)]
pub struct AudioSpecificConfig {
    pub initial_audio_object_type: u8,
    pub audio_object_type: u8,
    pub core_sample_rate: u32,
    pub channel_configuration: u8,
    pub explicit_he: bool,
}

/// An audio object type at `pos`: five bits, or 32 plus six more bits after the escape 31.
pub open spec fn read_aot(b: Seq<u8>, pos: int) -> Option<(u8, int)> {
    match read_bits(b, pos, 5) {
        None => None,
        Some(v) => if v == 31 {
            match read_bits(b, pos + 5, 6) {
                None => None,
                Some(w) => Some(((32 + w) as u8, pos + 11)),
            }
        } else {
            Some((v as u8, pos + 5))
        },
    }
}

/// A sampling frequency at `pos`: a four-bit index, or 24 explicit bits after the escape 15.
pub open spec fn read_rate(b: Seq<u8>, pos: int) -> Option<(u32, int)> {
    match read_bits(b, pos, 4) {
        None => None,
        Some(i) => if i == 15 {
            match read_bits(b, pos + 4, 24) {
                None => None,
                Some(r) => Some((r, pos + 28)),
            }
        } else {
            match aac_rate(i as int) {
                None => None,
                Some(r) => Some((r, pos + 4)),
            }
        },
    }
}

pub open spec fn spec_parse_asc(b: Seq<u8>) -> Option<AudioSpecificConfig> {
    match read_aot(b, 0) {
        None => None,
        Some((initial, p1)) => match read_rate(b, p1) {
            None => None,
            Some((rate, p2)) => match read_bits(b, p2, 4) {
                None => None,
                Some(channels) => {
                    let explicit_he = initial == 5 || initial == 29;
                    if explicit_he {
                        match read_rate(b, p2 + 4) {
                            None => None,
                            Some((_, p4)) => match read_aot(b, p4) {
                                None => None,
                                Some((aot, _)) => Some(
                                    AudioSpecificConfig {
                                        initial_audio_object_type: initial,
                                        audio_object_type: aot,
                                        core_sample_rate: rate,
                                        channel_configuration: channels as u8,
                                        explicit_he,
                                    },
                                ),
                            },
                        }
                    } else {
                        Some(
                            AudioSpecificConfig {
                                initial_audio_object_type: initial,
                                audio_object_type: initial,
                                core_sample_rate: rate,
                                channel_configuration: channels as u8,
                                explicit_he,
                            },
                        )
                    }
                },
            },
        },
    }
}

pub fn read_audio_object_type(bits: &mut BitReader) -> (result: Option<u8>)
    requires
        old(bits).wf(),
    ensures
        final(bits).wf(),
        final(bits).spec_bytes() == old(bits).spec_bytes(),
        match read_aot(old(bits).spec_bytes(), old(bits).spec_position()) {
            Some((v, p)) => result == Some(v) && final(bits).spec_position() == p,
            None => result is None,
        },
{
    let value = bits.read(5)?;
    proof {
        lemma_bits_value_bound(old(bits).spec_bytes(), old(bits).spec_position(), 5);
        assert(pow2(5) == 32) by {
            reveal_with_fuel(pow2, 6);
        }
    }
    if value == 31 {
        let extra = bits.read(6)?;
        proof {
            lemma_bits_value_bound(old(bits).spec_bytes(), old(bits).spec_position() + 5, 6);
            assert(pow2(6) == 64) by {
            reveal_with_fuel(pow2, 7);
        }
        }
        Some((32 + extra) as u8)
    } else {
        Some(value as u8)
    }
}

pub fn read_sample_rate(bits: &mut BitReader) -> (result: Option<u32>)
    requires
        old(bits).wf(),
    ensures
        final(bits).wf(),
        final(bits).spec_bytes() == old(bits).spec_bytes(),
        match read_rate(old(bits).spec_bytes(), old(bits).spec_position()) {
            Some((v, p)) => result == Some(v) && final(bits).spec_position() == p,
            None => result is None,
        },
{
    let index = bits.read(4)?;
    if index == 15 {
        bits.read(24)
    } else {
        aac_sample_rate(index)
    }
}

/// Parses the AudioSpecificConfig fields that select an AAC decoder profile.
pub fn parse_audio_specific_config(bytes: &[u8]) -> (result: Option<AudioSpecificConfig>)
    ensures
        result == spec_parse_asc(bytes@),
{
    let mut bits = BitReader::new(bytes);
    let initial_object_type = read_audio_object_type(&mut bits)?;
    let initial_rate = read_sample_rate(&mut bits)?;
    let channels = bits.read(4)?;
    proof {
        lemma_bits_value_bound(bytes@, bits.spec_position() - 4, 4);
        assert(pow2(4) == 16) by {
            reveal_with_fuel(pow2, 5);
        }
    }
    let channel_configuration = channels as u8;
    let explicit_he = initial_object_type == 5 || initial_object_type == 29;
    if explicit_he {
        read_sample_rate(&mut bits)?;
        let audio_object_type = read_audio_object_type(&mut bits)?;
        Some(
            AudioSpecificConfig {
                initial_audio_object_type: initial_object_type,
                audio_object_type,
                core_sample_rate: initial_rate,
                channel_configuration,
                explicit_he,
            },
        )
    } else {
        Some(
            AudioSpecificConfig {
                initial_audio_object_type: initial_object_type,
                audio_object_type: initial_object_type,
                core_sample_rate: initial_rate,
                channel_configuration,
                explicit_he,
            },
        )
    }
}

/// The AAC profile that an AudioSpecificConfig and the container's sample rate declare.
pub open spec fn spec_classify_aac(extra_data: Option<Seq<u8>>, declared_sample_rate: u32) -> Result<
    Codec,
    (&'static str, &'static str),
> {
    match extra_data {
        None => Err(("AAC", "missing AudioSpecificConfig")),
        Some(bytes) => match spec_parse_asc(bytes) {
            None => Err(("AAC", "invalid AudioSpecificConfig")),
            Some(c) => if c.audio_object_type != 2 {
                Err(("AAC", "unsupported audio object type"))
            } else if !c.explicit_he && c.core_sample_rate == declared_sample_rate {
                Ok(Codec::AacLc)
            } else if c.initial_audio_object_type == 29 || c.channel_configuration == 1 {
                Ok(Codec::HeAacV2)
            } else {
                Ok(Codec::HeAacV1)
            },
        },
    }
}

/// Classifies an AAC track as AAC-LC, HE-AAC v1 or HE-AAC v2.
pub fn classify_aac(extra_data: Option<&[u8]>, declared_sample_rate: u32) -> (result: Result<
    Codec,
    MediaError,
>)
    ensures
        match spec_classify_aac(
            match extra_data {
                Some(b) => Some(b@),
                None => None,
            },
            declared_sample_rate,
        ) {
            Ok(c) => result matches Ok(r) && r == c,
            Err((codec, profile)) => result matches Err(
                MediaError::UnsupportedCodecProfile { codec: c, profile: p },
            ) && c == codec && p == profile,
        },
{
    let bytes = match extra_data {
        Some(b) => b,
        None => {
            return Err(
                MediaError::UnsupportedCodecProfile {
                    codec: "AAC",
                    profile: "missing AudioSpecificConfig",
                },
            );
        },
    };
    let config = match parse_audio_specific_config(bytes) {
        Some(c) => c,
        None => {
            return Err(
                MediaError::UnsupportedCodecProfile {
                    codec: "AAC",
                    profile: "invalid AudioSpecificConfig",
                },
            );
        },
    };
    if config.audio_object_type != 2 {
        return Err(
            MediaError::UnsupportedCodecProfile {
                codec: "AAC",
                profile: "unsupported audio object type",
            },
        );
    }
    if !config.explicit_he && config.core_sample_rate == declared_sample_rate {
        return Ok(Codec::AacLc);
    }
    if config.initial_audio_object_type == 29 || config.channel_configuration == 1 {
        Ok(Codec::HeAacV2)
    } else {
        Ok(Codec::HeAacV1)
    }
}

} // verus!
