use vstd::prelude::*;

use crate::duration::Duration;
use crate::text::chars_of;

verus! {

#[verifier::external_type_specification]
#[verifier::external_body]
pub struct ExIoError(std::io::Error);

/// Resource bounds for probing and decoding one media input.
#[derive(Clone, Copy, Debug, PartialEq, Eq)]
pub struct MediaLimits {
    pub max_probe_bytes: u64,
    pub input_buffer_bytes: usize,
    pub max_metadata_string_bytes: usize,
    pub max_codec_probe_bytes: usize,
    pub max_packet_bytes: usize,
    pub max_pcm_samples_per_frame: usize,
    pub max_native_decoder_bytes: usize,
    pub max_codec_config_bytes: usize,
    pub max_consecutive_decode_errors: u32,
}

/// `n` is a power of two.
pub open spec fn is_power_of_two(n: int) -> bool
    decreases n,
{
    if n <= 0 {
        false
    } else if n == 1 {
        true
    } else {
        n % 2 == 0 && is_power_of_two(n / 2)
    }
}

pub fn power_of_two(n: usize) -> (result: bool)
    ensures
        result == is_power_of_two(n as int),
{
    if n == 0 {
        return false;
    }
    let mut m = n;
    while m > 1
        invariant
            1 <= m <= n,
            is_power_of_two(n as int) == is_power_of_two(m as int),
        decreases m,
    {
        if m % 2 != 0 {
            return false;
        }
        m = m / 2;
    }
    true
}

impl MediaLimits {
    pub fn default_limits() -> (limits: Self)
        ensures
            limits.max_probe_bytes == 1024 * 1024,
            limits.input_buffer_bytes == 64 * 1024,
            limits.max_metadata_string_bytes == 64 * 1024,
            limits.max_codec_probe_bytes == 1024 * 1024,
            limits.max_packet_bytes == 1024 * 1024,
            limits.max_pcm_samples_per_frame == 256 * 1024,
            limits.max_native_decoder_bytes == 32 * 1024 * 1024,
            limits.max_codec_config_bytes == 4 * 1024,
            limits.max_consecutive_decode_errors == 8,
    {
        MediaLimits {
            max_probe_bytes: 1024 * 1024,
            input_buffer_bytes: 64 * 1024,
            max_metadata_string_bytes: 64 * 1024,
            max_codec_probe_bytes: 1024 * 1024,
            max_packet_bytes: 1024 * 1024,
            max_pcm_samples_per_frame: 256 * 1024,
            max_native_decoder_bytes: 32 * 1024 * 1024,
            max_codec_config_bytes: 4 * 1024,
            max_consecutive_decode_errors: 8,
        }
    }

    /// The first bound that is unusable, in declaration order.
    pub open spec fn spec_validate_error(self) -> Option<&'static str> {
        if self.max_probe_bytes == 0 {
            Some("max_probe_bytes must be non-zero")
        } else if self.input_buffer_bytes <= 32 * 1024 || !is_power_of_two(
            self.input_buffer_bytes as int,
        ) {
            Some("input_buffer_bytes must be a power of two greater than 32 KiB")
        } else if self.max_metadata_string_bytes == 0 {
            Some("max_metadata_string_bytes must be non-zero")
        } else if self.max_codec_probe_bytes == 0 {
            Some("max_codec_probe_bytes must be non-zero")
        } else if self.max_packet_bytes == 0 {
            Some("max_packet_bytes must be non-zero")
        } else if self.max_pcm_samples_per_frame == 0 {
            Some("max_pcm_samples_per_frame must be non-zero")
        } else if self.max_native_decoder_bytes == 0 {
            Some("max_native_decoder_bytes must be non-zero")
        } else if self.max_codec_config_bytes == 0 {
            Some("max_codec_config_bytes must be non-zero")
        } else {
            None
        }
    }

    pub fn validate(self) -> (result: Result<Self, MediaError>)
        ensures
            match self.spec_validate_error() {
                Some(m) => result matches Err(MediaError::InvalidLimits(r)) && r == m,
                None => result matches Ok(l) && l == self,
            },
    {
        if self.max_probe_bytes == 0 {
            return Err(MediaError::InvalidLimits("max_probe_bytes must be non-zero"));
        }
        if self.input_buffer_bytes <= 32 * 1024 || !power_of_two(self.input_buffer_bytes) {
            return Err(
                MediaError::InvalidLimits(
                    "input_buffer_bytes must be a power of two greater than 32 KiB",
                ),
            );
        }
        if self.max_metadata_string_bytes == 0 {
            return Err(MediaError::InvalidLimits("max_metadata_string_bytes must be non-zero"));
        }
        if self.max_codec_probe_bytes == 0 {
            return Err(MediaError::InvalidLimits("max_codec_probe_bytes must be non-zero"));
        }
        if self.max_packet_bytes == 0 {
            return Err(MediaError::InvalidLimits("max_packet_bytes must be non-zero"));
        }
        if self.max_pcm_samples_per_frame == 0 {
            return Err(MediaError::InvalidLimits("max_pcm_samples_per_frame must be non-zero"));
        }
        if self.max_native_decoder_bytes == 0 {
            return Err(MediaError::InvalidLimits("max_native_decoder_bytes must be non-zero"));
        }
        if self.max_codec_config_bytes == 0 {
            return Err(MediaError::InvalidLimits("max_codec_config_bytes must be non-zero"));
        }
        Ok(self)
    }
}

#[derive(Clone, Copy, Debug, PartialEq, Eq, Structural)]
pub enum Container {
    Wave,
    Mp3,
    Mp4,
    WebM,
    Matroska,
    Flac,
    Ogg,
    Adts,
}

#[derive(Clone, Copy, Debug, PartialEq, Eq, Structural)]
pub enum Codec {
    PcmS16Le,
    PcmS24Le,
    PcmS32Le,
    Mp3,
    AacLc,
    HeAacV1,
    HeAacV2,
    Opus,
    Flac,
    Vorbis,
}

/// Bounded metadata fields that participate in the local-track contract.
#[derive(Clone, Debug, PartialEq, Eq)]
pub struct MediaMetadata {
    pub title: Option<String>,
    pub author: Option<String>,
    pub isrc: Option<String>,
}

impl MediaMetadata {
    pub fn empty() -> (m: Self)
        ensures
            m.title is None && m.author is None && m.isrc is None,
    {
        MediaMetadata { title: None, author: None, isrc: None }
    }
}

/// The metadata field that a standard tag fills.
#[derive(Clone, Copy, Debug, PartialEq, Eq, Structural)]
pub enum MetadataField {
    Title,
    Author,
    Isrc,
}

/// A standard tag that maps to a metadata field, with its value.
#[derive(Clone, Debug, PartialEq, Eq)]
pub struct MetadataTag {
    pub field: MetadataField,
    pub value: String,
}

/// One revision of a file's metadata: the container's tags and, where the selected track has
/// tags of its own in that revision, those.
#[derive(Clone, Debug, PartialEq, Eq)]
pub struct MetadataRevision {
    pub media: Vec<MetadataTag>,
    pub track: Option<Vec<MetadataTag>>,
}

/// Title, author and ISRC as character sequences.
pub type MetadataFields = (Option<Seq<char>>, Option<Seq<char>>, Option<Seq<char>>);

pub open spec fn metadata_view(m: MediaMetadata) -> MetadataFields {
    (
        crate::playlist::opt_string_seq(m.title),
        crate::playlist::opt_string_seq(m.author),
        crate::playlist::opt_string_seq(m.isrc),
    )
}

pub open spec fn tags_view(tags: Seq<MetadataTag>) -> Seq<(MetadataField, Seq<char>)> {
    tags.map_values(|t: MetadataTag| (t.field, t.value@))
}

/// A tag with an empty value or one over `max_bytes` UTF-8 bytes is skipped; otherwise it fills
/// its field when the field is empty, or always when `overwrite` holds.
pub open spec fn apply_tag(
    m: MetadataFields,
    tag: (MetadataField, Seq<char>),
    max_bytes: int,
    overwrite: bool,
) -> MetadataFields {
    let value = tag.1;
    let len = crate::route_util::utf8_len(value);
    if len == 0 || len > max_bytes {
        m
    } else {
        match tag.0 {
            MetadataField::Title => if overwrite || m.0 is None {
                (Some(value), m.1, m.2)
            } else {
                m
            },
            MetadataField::Author => if overwrite || m.1 is None {
                (m.0, Some(value), m.2)
            } else {
                m
            },
            MetadataField::Isrc => if overwrite || m.2 is None {
                (m.0, m.1, Some(value))
            } else {
                m
            },
        }
    }
}

/// The tags applied in order.
pub open spec fn apply_tags(
    m: MetadataFields,
    tags: Seq<(MetadataField, Seq<char>)>,
    max_bytes: int,
    overwrite: bool,
) -> MetadataFields
    decreases tags.len(),
{
    if tags.len() == 0 {
        m
    } else {
        apply_tag(apply_tags(m, tags.drop_last(), max_bytes, overwrite), tags.last(), max_bytes, overwrite)
    }
}

/// Applies a container's tags: container-level tags fill only empty fields, track tags
/// (`overwrite`) replace what is there.
pub fn apply_metadata_tags(
    result: &mut MediaMetadata,
    tags: &[MetadataTag],
    max_string_bytes: usize,
    overwrite: bool,
)
    ensures
        metadata_view(*final(result)) == apply_tags(
            metadata_view(*old(result)),
            tags_view(tags@),
            max_string_bytes as int,
            overwrite,
        ),
{
    let mut i: usize = 0;
    while i < tags.len()
        invariant
            i <= tags@.len(),
            metadata_view(*result) == apply_tags(
                metadata_view(*old(result)),
                tags_view(tags@.subrange(0, i as int)),
                max_string_bytes as int,
                overwrite,
            ),
        decreases tags@.len() - i,
    {
        let tag = &tags[i];
        proof {
            assert(tags_view(tags@.subrange(0, i + 1)).drop_last() =~= tags_view(
                tags@.subrange(0, i as int),
            ));
            assert(tags_view(tags@.subrange(0, i + 1)).last() == (tag.field, tag.value@));
        }
        let len = tag.value.as_str().len();
        if len != 0 && len <= max_string_bytes {
            match tag.field {
                MetadataField::Title => if overwrite || result.title.is_none() {
                    result.title = Some(tag.value.clone());
                },
                MetadataField::Author => if overwrite || result.author.is_none() {
                    result.author = Some(tag.value.clone());
                },
                MetadataField::Isrc => if overwrite || result.isrc.is_none() {
                    result.isrc = Some(tag.value.clone());
                },
            }
        }
        i = i + 1;
    }
    proof {
        assert(tags@.subrange(0, tags@.len() as int) =~= tags@);
    }
}

/// The metadata of all revisions, oldest first: in each, the container's tags fill empty
/// fields and then the selected track's tags replace fields.
pub open spec fn revisions_metadata(revisions: Seq<MetadataRevision>, max_bytes: int) -> MetadataFields
    decreases revisions.len(),
{
    if revisions.len() == 0 {
        (None, None, None)
    } else {
        let before = revisions_metadata(revisions.drop_last(), max_bytes);
        let revision = revisions.last();
        let with_media = apply_tags(before, tags_view(revision.media@), max_bytes, false);
        match revision.track {
            Some(track) => apply_tags(with_media, tags_view(track@), max_bytes, true),
            None => with_media,
        }
    }
}

/// Gathers title, author and ISRC from metadata revisions, oldest first.
pub fn extract_metadata(revisions: &[MetadataRevision], max_string_bytes: usize) -> (metadata:
    MediaMetadata)
    ensures
        metadata_view(metadata) == revisions_metadata(revisions@, max_string_bytes as int),
{
    let mut result = MediaMetadata::empty();
    let mut i: usize = 0;
    while i < revisions.len()
        invariant
            i <= revisions@.len(),
            metadata_view(result) == revisions_metadata(
                revisions@.subrange(0, i as int),
                max_string_bytes as int,
            ),
        decreases revisions@.len() - i,
    {
        let revision = &revisions[i];
        proof {
            assert(revisions@.subrange(0, i + 1).drop_last() =~= revisions@.subrange(0, i as int));
        }
        apply_metadata_tags(&mut result, revision.media.as_slice(), max_string_bytes, false);
        match &revision.track {
            Some(track) => apply_metadata_tags(&mut result, track.as_slice(), max_string_bytes, true),
            None => {},
        }
        i = i + 1;
    }
    proof {
        assert(revisions@.subrange(0, revisions@.len() as int) =~= revisions@);
    }
    result
}

#[derive(Clone, Debug, PartialEq, Eq)]
pub struct MediaInfo {
    pub container: Container,
    pub codec: Codec,
    pub sample_rate: u32,
    pub channels: u16,
    pub duration: Option<Duration>,
    pub seekable: bool,
    pub metadata: MediaMetadata,
}

/// Caller-owned reusable storage for an encoded packet such as Opus.
#[derive(Debug)]
pub struct EncodedPacket {
    data: Vec<u8>,
    reserved: usize,
    timestamp: Option<Duration>,
    duration: Option<Duration>,
}

impl EncodedPacket {
    pub closed spec fn spec_data(&self) -> Seq<u8> {
        self.data@
    }

    pub closed spec fn spec_timestamp(&self) -> Option<Duration> {
        self.timestamp
    }

    pub closed spec fn spec_duration(&self) -> Option<Duration> {
        self.duration
    }

    /// The bytes reserved when the storage was made; a packet of up to this size always fits.
    pub closed spec fn spec_reserved(&self) -> usize {
        self.reserved
    }

    pub fn with_capacity(byte_capacity: usize) -> (packet: Self)
        ensures
            packet.spec_data().len() == 0,
            packet.spec_timestamp() is None,
            packet.spec_duration() is None,
            packet.spec_reserved() == byte_capacity,
    {
        EncodedPacket {
            data: Vec::with_capacity(byte_capacity),
            reserved: byte_capacity,
            timestamp: None,
            duration: None,
        }
    }

    pub fn data(&self) -> (data: &[u8])
        ensures
            data@ == self.spec_data(),
    {
        self.data.as_slice()
    }

    pub fn timestamp(&self) -> (timestamp: Option<Duration>)
        ensures
            timestamp == self.spec_timestamp(),
    {
        self.timestamp
    }

    pub fn duration(&self) -> (duration: Option<Duration>)
        ensures
            duration == self.spec_duration(),
    {
        self.duration
    }

    /// Empties the storage at the end of the stream.
    pub fn clear(&mut self)
        ensures
            final(self).spec_data().len() == 0,
            final(self).spec_timestamp() == old(self).spec_timestamp(),
            final(self).spec_duration() == old(self).spec_duration(),
            final(self).spec_reserved() == old(self).spec_reserved(),
    {
        self.data.clear();
    }

    /// Stores one encoded packet. A packet larger than the storage's capacity is refused and
    /// the storage is left unchanged. A zero container duration counts as absent, and then the
    /// duration read from the packet itself stands in.
    pub fn store(
        &mut self,
        data: &[u8],
        timestamp: Option<Duration>,
        container_duration: Option<Duration>,
        packet_duration: Option<Duration>,
    ) -> (result: Result<(), MediaError>)
        ensures
            match result {
                Ok(()) => final(self).spec_data() == data@ && final(self).spec_timestamp()
                    == timestamp && final(self).spec_duration() == match container_duration {
                    Some(d) => if d@ != 0 {
                        Some(d)
                    } else {
                        packet_duration
                    },
                    None => packet_duration,
                },
                Err(e) => e matches MediaError::OutputBufferTooSmall { required, capacity }
                    && required == data@.len() && capacity < data@.len() && *final(self)
                    == *old(self),
            },
            data@.len() <= old(self).spec_reserved() ==> result is Ok,
            final(self).spec_reserved() == old(self).spec_reserved(),
    {
        // `Vec::with_capacity` reserves at least the requested bytes and nothing here shrinks
        // the buffer, so the buffer's capacity is never below the reserved size.
        let allocated = crate::text::vec_capacity(&self.data);
        let capacity = if allocated < self.reserved {
            self.reserved
        } else {
            allocated
        };
        if data.len() > capacity {
            return Err(MediaError::OutputBufferTooSmall { required: data.len(), capacity });
        }
        self.data.clear();
        let ghost reserved = self.reserved;
        let mut i: usize = 0;
        while i < data.len()
            invariant
                i <= data@.len(),
                self.reserved == reserved,
                self.data@ == data@.subrange(0, i as int),
            decreases data@.len() - i,
        {
            self.data.push(data[i]);
            i = i + 1;
        }
        proof {
            assert(data@.subrange(0, data@.len() as int) =~= data@);
        }
        self.timestamp = timestamp;
        self.duration = match container_duration {
            Some(d) => if !d.is_zero() {
                Some(d)
            } else {
                packet_duration
            },
            None => packet_duration,
        };
        Ok(())
    }
}

/// Only an Opus track hands out encoded packets; the others decode to PCM.
pub fn check_encoded_output(codec: Codec) -> (result: Result<(), MediaError>)
    ensures
        codec == Codec::Opus ==> result is Ok,
        codec != Codec::Opus ==> (result matches Err(MediaError::WrongOutputKind { codec: c })
            && c == codec),
{
    match codec {
        Codec::Opus => Ok(()),
        _ => Err(MediaError::WrongOutputKind { codec }),
    }
}

#[derive(Clone, Copy, Debug, PartialEq, Eq)]
pub struct SeekResult {
    pub requested: Duration,
    pub actual: Option<Duration>,
}

#[derive(Debug)]
pub enum MediaError {
    Io(std::io::Error),
    Cancelled,
    InvalidLimits(&'static str),
    InvalidHttpOptions(&'static str),
    ProbeLimitExceeded { limit: u64 },
    NoAudioTrack,
    UnsupportedContainer(String),
    UnsupportedCodec(String),
    UnsupportedCodecProfile { codec: &'static str, profile: &'static str },
    PacketTooLarge { actual: usize, limit: usize },
    CodecConfigTooLarge { actual: usize, limit: usize },
    CodecProbeLimitExceeded { actual: usize, limit: usize },
    PcmFrameTooLarge { actual: usize, limit: usize },
    OutputBufferTooSmall { required: usize, capacity: usize },
    DecodeErrorLimitExceeded { limit: u32 },
    DecodeDelayLimitExceeded { limit: usize },
    WrongOutputKind { codec: Codec },
    Backend { operation: &'static str, message: String },
}

// ---------------------------------------------------------------------------------------------
// Container names
// ---------------------------------------------------------------------------------------------

/// Maps a demuxer's short container name to a container; an EBML document needs the WebM or
/// Matroska document type found by inspection.
pub open spec fn spec_map_container(name: Seq<char>, ebml: Option<Container>) -> Option<Container> {
    if name == "wave"@ {
        Some(Container::Wave)
    } else if name == "mp3"@ {
        Some(Container::Mp3)
    } else if name == "isomp4"@ {
        Some(Container::Mp4)
    } else if name == "matroska"@ {
        ebml
    } else if name == "flac"@ {
        Some(Container::Flac)
    } else if name == "ogg"@ {
        Some(Container::Ogg)
    } else if name == "aac"@ {
        Some(Container::Adts)
    } else {
        None
    }
}

pub fn map_container(name: &str, ebml_container: Option<Container>) -> (result: Result<
    Container,
    MediaError,
>)
    ensures
        match spec_map_container(name@, ebml_container) {
            Some(c) => result matches Ok(r) && r == c,
            None => result matches Err(MediaError::UnsupportedContainer(m)) && (if name@
                == "matroska"@ {
                m@ == "EBML without a WebM or Matroska document type"@
            } else {
                m@ == name@
            }),
        },
{
    let n = chars_of(name);
    let s = n.as_slice();
    if crate::playlist::seq_equal(s, chars_of("wave").as_slice()) {
        Ok(Container::Wave)
    } else if crate::playlist::seq_equal(s, chars_of("mp3").as_slice()) {
        Ok(Container::Mp3)
    } else if crate::playlist::seq_equal(s, chars_of("isomp4").as_slice()) {
        Ok(Container::Mp4)
    } else if crate::playlist::seq_equal(s, chars_of("matroska").as_slice()) {
        match ebml_container {
            Some(c) => Ok(c),
            None => Err(
                MediaError::UnsupportedContainer(
                    crate::text::string_from_chars(
                        chars_of("EBML without a WebM or Matroska document type").as_slice(),
                    ),
                ),
            ),
        }
    } else if crate::playlist::seq_equal(s, chars_of("flac").as_slice()) {
        Ok(Container::Flac)
    } else if crate::playlist::seq_equal(s, chars_of("ogg").as_slice()) {
        Ok(Container::Ogg)
    } else if crate::playlist::seq_equal(s, chars_of("aac").as_slice()) {
        Ok(Container::Adts)
    } else {
        Err(MediaError::UnsupportedContainer(crate::text::string_from_chars(s)))
    }
}

// ---------------------------------------------------------------------------------------------
// In-memory input
// ---------------------------------------------------------------------------------------------

/// The position a seek of an in-memory input reaches: any position from zero up to `u64::MAX`,
/// past the end included; `None` when the target is negative or does not fit.
pub open spec fn spec_memory_seek(position: u64, len: int, origin: crate::http_policy::SeekOrigin) -> Option<
    u64,
> {
    let target: int = match origin {
        crate::http_policy::SeekOrigin::Start(offset) => offset as int,
        crate::http_policy::SeekOrigin::Current(offset) => position + offset,
        crate::http_policy::SeekOrigin::End(offset) => len + offset,
    };
    if 0 <= target <= u64::MAX {
        Some(target as u64)
    } else {
        None
    }
}

/// How many bytes a read at `position` of `len` bytes into a buffer of `room` bytes copies.
pub open spec fn spec_read_count(position: int, len: int, room: int) -> int {
    if position >= len {
        0
    } else if room < len - position {
        room
    } else {
        len - position
    }
}

/// An owned in-memory input for deterministic tests and callers with existing bytes.
#[derive(Debug)]
pub struct MemoryInput {
    bytes: Vec<u8>,
    position: u64,
}

impl MemoryInput {
    /// The bytes of the input.
    pub closed spec fn spec_bytes(&self) -> Seq<u8> {
        self.bytes@
    }

    /// The read position, which may lie past the end.
    pub closed spec fn spec_position(&self) -> u64 {
        self.position
    }

    pub fn new(bytes: Vec<u8>) -> (input: Self)
        ensures
            input.spec_bytes() == bytes@,
            input.spec_position() == 0,
    {
        MemoryInput { bytes, position: 0 }
    }

    /// An in-memory input can always seek.
    pub fn is_seekable(&self) -> (seekable: bool)
        ensures
            seekable,
    {
        true
    }

    /// The input's length, always known.
    pub fn byte_len(&self) -> (len: Option<u64>)
        ensures
            len == Some(self.spec_bytes().len() as u64),
    {
        Some(self.bytes.len() as u64)
    }

    pub fn position(&self) -> (position: u64)
        ensures
            position == self.spec_position(),
    {
        self.position
    }

    /// Copies the bytes from the position into the front of `buffer`, as many as fit and remain,
    /// and moves the position past them; at or past the end it copies nothing.
    pub fn read(&mut self, buffer: &mut [u8]) -> (count: usize)
        ensures
            count == spec_read_count(
                old(self).spec_position() as int,
                old(self).spec_bytes().len() as int,
                old(buffer)@.len() as int,
            ),
            final(self).spec_bytes() == old(self).spec_bytes(),
            final(self).spec_position() == old(self).spec_position() + count,
            final(buffer)@.len() == old(buffer)@.len(),
            count > 0 ==> final(buffer)@.take(count as int) == old(self).spec_bytes().subrange(
                old(self).spec_position() as int,
                old(self).spec_position() + count,
            ),
            final(buffer)@.skip(count as int) == old(buffer)@.skip(count as int),
    {
        let len = self.bytes.len();
        if self.position >= len as u64 {
            proof {
                assert(buffer@.skip(0) =~= buffer@);
            }
            return 0;
        }
        let start = self.position as usize;
        let available = len - start;
        let count = if buffer.len() < available {
            buffer.len()
        } else {
            available
        };
        let ghost before = buffer@;
        let mut i: usize = 0;
        while i < count
            invariant
                i <= count,
                count <= buffer@.len(),
                start + count <= self.bytes@.len(),
                len == self.bytes@.len(),
                buffer@.len() == before.len(),
                forall|j: int| 0 <= j < i ==> buffer@[j] == self.bytes@[start + j],
                forall|j: int| i <= j < buffer@.len() ==> buffer@[j] == before[j],
            decreases count - i,
        {
            buffer[i] = self.bytes[start + i];
            i = i + 1;
        }
        proof {
            assert(buffer@.take(count as int) =~= self.bytes@.subrange(
                start as int,
                start + count,
            ));
            assert(buffer@.skip(count as int) =~= before.skip(count as int));
        }
        self.position = self.position + count as u64;
        count
    }

    /// Moves the position from the start, the current position or the end; any target from zero
    /// up to `u64::MAX` is accepted, past the end included.
    pub fn seek(&mut self, origin: crate::http_policy::SeekOrigin) -> (result: Result<u64, &'static str>)
        ensures
            final(self).spec_bytes() == old(self).spec_bytes(),
            match spec_memory_seek(
                old(self).spec_position(),
                old(self).spec_bytes().len() as int,
                origin,
            ) {
                Some(t) => result == Ok::<u64, &'static str>(t) && final(self).spec_position() == t,
                None => result == Err::<u64, &'static str>(
                    "invalid seek to a negative or overflowing position",
                ) && final(self).spec_position() == old(self).spec_position(),
            },
    {
        let target: i128 = match origin {
            crate::http_policy::SeekOrigin::Start(offset) => offset as i128,
            crate::http_policy::SeekOrigin::Current(offset) => self.position as i128 + offset as i128,
            crate::http_policy::SeekOrigin::End(offset) => self.bytes.len() as i128 + offset as i128,
        };
        if target < 0 || target > u64::MAX as i128 {
            return Err("invalid seek to a negative or overflowing position");
        }
        self.position = target as u64;
        Ok(self.position)
    }
}

} // verus!
