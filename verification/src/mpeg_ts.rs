use vstd::prelude::*;

use crate::text::string_from_chars;

verus! {

pub const TS_PACKET_BYTES: usize = 188;
pub const PAT_PID: u16 = 0;
pub const SDT_PID: u16 = 0x0011;
pub const ADTS_STREAM_TYPE: u8 = 0x0f;
pub const PID_COUNT: usize = 8192;

/// Resource limits for one finite MPEG-TS segment.
#[derive(Clone, Copy, Debug, PartialEq, Eq)]
pub struct MpegTsLimits {
    pub max_packets: usize,
    pub max_psi_section_bytes: usize,
    pub max_pes_payload_bytes: usize,
    pub max_metadata_string_bytes: usize,
}

impl MpegTsLimits {
    /// The documented default bounds.
    pub fn default_limits() -> (limits: Self)
        ensures
            limits.max_packets == 65_536,
            limits.max_psi_section_bytes == 4 * 1024,
            limits.max_pes_payload_bytes == 8 * 1024 * 1024,
            limits.max_metadata_string_bytes == 4 * 1024,
    {
        MpegTsLimits {
            max_packets: 65_536,
            max_psi_section_bytes: 4 * 1024,
            max_pes_payload_bytes: 8 * 1024 * 1024,
            max_metadata_string_bytes: 4 * 1024,
        }
    }

    /// Every bound is non-zero.
    pub open spec fn is_valid(self) -> bool {
        &&& self.max_packets != 0
        &&& self.max_psi_section_bytes != 0
        &&& self.max_pes_payload_bytes != 0
        &&& self.max_metadata_string_bytes != 0
    }

    pub open spec fn spec_validate(self) -> Result<Self, MpegTsError> {
        if self.max_packets == 0 {
            Err(MpegTsError::InvalidLimits("max_packets must be non-zero"))
        } else if self.max_psi_section_bytes == 0 {
            Err(MpegTsError::InvalidLimits("max_psi_section_bytes must be non-zero"))
        } else if self.max_pes_payload_bytes == 0 {
            Err(MpegTsError::InvalidLimits("max_pes_payload_bytes must be non-zero"))
        } else if self.max_metadata_string_bytes == 0 {
            Err(MpegTsError::InvalidLimits("max_metadata_string_bytes must be non-zero"))
        } else {
            Ok(self)
        }
    }

    pub fn validate(self) -> (result: Result<Self, MpegTsError>)
        ensures
            result == self.spec_validate(),
            result is Ok <==> self.is_valid(),
    {
        if self.max_packets == 0 {
            return Err(MpegTsError::InvalidLimits("max_packets must be non-zero"));
        }
        if self.max_psi_section_bytes == 0 {
            return Err(MpegTsError::InvalidLimits("max_psi_section_bytes must be non-zero"));
        }
        if self.max_pes_payload_bytes == 0 {
            return Err(MpegTsError::InvalidLimits("max_pes_payload_bytes must be non-zero"));
        }
        if self.max_metadata_string_bytes == 0 {
            return Err(MpegTsError::InvalidLimits("max_metadata_string_bytes must be non-zero"));
        }
        Ok(self)
    }
}

#[derive(Clone, Debug, PartialEq, Eq)]
pub struct MpegTsMetadata {
    pub service_provider: Option<String>,
    pub service_name: Option<String>,
}

/// The abstract value of [`MpegTsMetadata`]: the two optional strings as character sequences.
pub struct MetadataView {
    pub provider: Option<Seq<char>>,
    pub name: Option<Seq<char>>,
}

pub open spec fn opt_string_view(value: Option<String>) -> Option<Seq<char>> {
    match value {
        Some(s) => Some(s@),
        None => None,
    }
}

impl View for MpegTsMetadata {
    type V = MetadataView;

    open spec fn view(&self) -> MetadataView {
        MetadataView {
            provider: opt_string_view(self.service_provider),
            name: opt_string_view(self.service_name),
        }
    }
}

/// The bounded ADTS elementary payload extracted from one MPEG-TS segment.
#[derive(Clone, Debug, PartialEq, Eq)]
pub struct MpegTsAdtsSegment {
    adts: Vec<u8>,
    metadata: MpegTsMetadata,
}

impl MpegTsAdtsSegment {
    pub closed spec fn spec_adts(&self) -> Seq<u8> {
        self.adts@
    }

    pub closed spec fn spec_metadata(&self) -> MetadataView {
        self.metadata@
    }

    pub fn adts_bytes(&self) -> (bytes: &[u8])
        ensures
            bytes@ == self.spec_adts(),
    {
        self.adts.as_slice()
    }

    pub fn metadata(&self) -> (metadata: &MpegTsMetadata)
        ensures
            metadata@ == self.spec_metadata(),
    {
        &self.metadata
    }

    pub fn into_adts_bytes(self) -> (bytes: Vec<u8>)
        ensures
            bytes@ == self.spec_adts(),
    {
        self.adts
    }
}

#[derive(Clone, Debug, PartialEq, Eq)]
pub enum MpegTsError {
    InvalidLimits(&'static str),
    TruncatedPacket { trailing_bytes: usize },
    TooManyPackets { actual: usize, limit: usize },
    InvalidPacket { packet: usize, reason: &'static str },
    Continuity { pid: u16, expected: u8, actual: u8 },
    PsiSectionTooLarge { actual: usize, limit: usize },
    InvalidPsi(&'static str),
    TruncatedPsi,
    MissingProgramMap,
    MissingAdtsStream,
    InvalidPes(&'static str),
    TruncatedPes,
    PesPayloadTooLarge { actual: usize, limit: usize },
    MissingAdtsPayload,
    MetadataTooLarge { actual: usize, limit: usize },
}

// ---------------------------------------------------------------------------------------------
// Transport packets
// ---------------------------------------------------------------------------------------------

/// The fields of one transport packet header and the offset at which its payload starts.
pub struct PacketView {
    pub pid: u16,
    pub unit_start: bool,
    pub continuity: u8,
    pub discontinuity: bool,
    pub payload_start: int,
}

pub proof fn lemma_masks(x: u8)
    ensures
        x & 0x0f <= 15,
        x & 0x1f <= 31,
        x & 0x03 <= 3,
        (x >> 4u8) & 3 <= 3,
        x >> 6u8 <= 3,
{
    assert(x & 0x0f <= 15) by (bit_vector);
    assert(x & 0x1f <= 31) by (bit_vector);
    assert(x & 0x03 <= 3) by (bit_vector);
    assert((x >> 4u8) & 3 <= 3) by (bit_vector);
    assert(x >> 6u8 <= 3) by (bit_vector);
}

/// Thirteen-bit PID carried in bytes 1 and 2 of a packet.
pub open spec fn packet_pid(raw: Seq<u8>) -> u16 {
    ((raw[1] & 0x1f) as int * 256 + raw[2] as int) as u16
}

/// Parses the header of one 188-byte transport packet.
pub open spec fn spec_parse_packet(raw: Seq<u8>, packet: usize) -> Result<PacketView, MpegTsError> {
    if raw[0] != 0x47 {
        Err(MpegTsError::InvalidPacket { packet, reason: "sync byte is not 0x47" })
    } else if raw[1] & 0x80 != 0 {
        Err(MpegTsError::InvalidPacket { packet, reason: "transport error indicator is set" })
    } else if raw[3] >> 6u8 != 0 {
        Err(MpegTsError::InvalidPacket { packet, reason: "scrambled payload is unsupported" })
    } else if (raw[3] >> 4u8) & 3 == 0 {
        Err(MpegTsError::InvalidPacket { packet, reason: "adaptation control is zero" })
    } else if (raw[3] >> 4u8) & 3 != 1 && 5 + raw[4] as int > 188 {
        Err(MpegTsError::InvalidPacket { packet, reason: "adaptation field exceeds packet" })
    } else {
        let adaptation = (raw[3] >> 4u8) & 3;
        Ok(PacketView {
            pid: packet_pid(raw),
            unit_start: raw[1] & 0x40 != 0,
            continuity: raw[3] & 0x0f,
            discontinuity: adaptation != 1 && raw[4] > 0 && raw[5] & 0x80 != 0,
            payload_start: if adaptation == 1 {
                4
            } else if adaptation == 2 {
                188
            } else {
                5 + raw[4] as int
            },
        })
    }
}

pub struct TransportPacket<'a> {
    pub pid: u16,
    pub unit_start: bool,
    pub continuity: u8,
    pub discontinuity: bool,
    pub payload: &'a [u8],
}

impl<'a> TransportPacket<'a> {
    pub open spec fn matches(&self, raw: Seq<u8>, v: PacketView) -> bool {
        &&& self.pid == v.pid
        &&& self.unit_start == v.unit_start
        &&& self.continuity == v.continuity
        &&& self.discontinuity == v.discontinuity
        &&& 4 <= v.payload_start <= 188
        &&& self.payload@ == raw.subrange(v.payload_start, 188)
    }

    pub fn parse(raw: &'a [u8], packet: usize) -> (result: Result<Self, MpegTsError>)
        requires
            raw@.len() == 188,
        ensures
            match result {
                Ok(p) => spec_parse_packet(raw@, packet) matches Ok(v) && p.matches(raw@, v),
                Err(e) => spec_parse_packet(raw@, packet) == Err::<PacketView, MpegTsError>(e),
            },
            result is Ok ==> result->Ok_0.pid < 8192,
    {
        proof {
            lemma_masks(raw@[1]);
            lemma_masks(raw@[3]);
        }
        if raw[0] != 0x47 {
            return Err(MpegTsError::InvalidPacket { packet, reason: "sync byte is not 0x47" });
        }
        if raw[1] & 0x80 != 0 {
            return Err(
                MpegTsError::InvalidPacket { packet, reason: "transport error indicator is set" },
            );
        }
        let pid: u16 = ((raw[1] & 0x1f) as u16) * 256 + raw[2] as u16;
        let scrambling = raw[3] >> 6u8;
        if scrambling != 0 {
            return Err(
                MpegTsError::InvalidPacket { packet, reason: "scrambled payload is unsupported" },
            );
        }
        let adaptation = (raw[3] >> 4u8) & 3;
        if adaptation == 0 {
            return Err(MpegTsError::InvalidPacket { packet, reason: "adaptation control is zero" });
        }
        let continuity = raw[3] & 0x0f;
        let mut discontinuity = false;
        let payload_start: usize;
        if adaptation == 1 {
            payload_start = 4;
        } else {
            let length = raw[4] as usize;
            let end = 5 + length;
            if end > TS_PACKET_BYTES {
                return Err(
                    MpegTsError::InvalidPacket { packet, reason: "adaptation field exceeds packet" },
                );
            }
            if length > 0 {
                discontinuity = raw[5] & 0x80 != 0;
            }
            payload_start = end;
        }
        let payload = if adaptation == 2 {
            &raw[188..188]
        } else {
            &raw[payload_start..188]
        };
        Ok(TransportPacket { pid, unit_start: raw[1] & 0x40 != 0, continuity, discontinuity, payload })
    }
}

/// Applies the continuity-counter rule of one packet to the per-PID counter table.
pub open spec fn spec_continuity(
    table: Seq<Option<u8>>,
    pid: u16,
    counter: u8,
    discontinuity: bool,
) -> Result<Seq<Option<u8>>, MpegTsError> {
    let slot = table[pid as int];
    if slot is Some && !discontinuity && counter != ((slot->0 + 1) as u8 & 0x0f) {
        Err(
            MpegTsError::Continuity {
                pid,
                expected: ((slot->0 + 1) as u8 & 0x0f),
                actual: counter,
            },
        )
    } else {
        Ok(table.update(pid as int, Some(counter)))
    }
}

pub fn validate_continuity(
    pid: u16,
    counter: u8,
    discontinuity: bool,
    table: &mut Vec<Option<u8>>,
) -> (result: Result<(), MpegTsError>)
    requires
        pid < old(table)@.len(),
    ensures
        match spec_continuity(old(table)@, pid, counter, discontinuity) {
            Ok(t) => result is Ok && final(table)@ == t,
            Err(e) => result == Err::<(), MpegTsError>(e) && final(table)@ == old(table)@,
        },
{
    let index = pid as usize;
    match table[index] {
        Some(previous) => {
            if !discontinuity {
                let expected = ((previous as u16 + 1) as u8) & 0x0f;
                if counter != expected {
                    return Err(MpegTsError::Continuity { pid, expected, actual: counter });
                }
            }
        },
        None => {},
    }
    table.set(index, Some(counter));
    Ok(())
}

// ---------------------------------------------------------------------------------------------
// PSI section assembly
// ---------------------------------------------------------------------------------------------

/// Partial PSI section bytes and, once the three-byte header is complete, the section size.
pub struct PsiView {
    pub buffer: Seq<u8>,
    pub expected: Option<int>,
}

pub open spec fn psi_wf(s: PsiView) -> bool {
    match s.expected {
        None => s.buffer.len() < 3,
        Some(e) => 3 <= s.buffer.len() < e,
    }
}

pub open spec fn psi_empty() -> PsiView {
    PsiView { buffer: Seq::empty(), expected: None }
}

pub open spec fn section_size(header: Seq<u8>) -> int {
    3 + (header[1] & 0x0f) as int * 256 + header[2] as int
}

pub open spec fn min_int(a: int, b: int) -> int {
    if a <= b {
        a
    } else {
        b
    }
}

/// Prepends completed sections to the result of a later assembly step.
pub open spec fn with_sections(
    done: Seq<Seq<u8>>,
    rest: Result<(PsiView, Seq<Seq<u8>>), MpegTsError>,
) -> Result<(PsiView, Seq<Seq<u8>>), MpegTsError> {
    match rest {
        Ok((s, more)) => Ok((s, done + more)),
        Err(e) => Err(e),
    }
}

#[verifier::opaque]
/// Feeds continuation bytes to a PSI assembler. Completed sections are returned in order;
/// a `0xff` stuffing byte at a section boundary ends the packet's section data.
pub open spec fn psi_consume(s: PsiView, bytes: Seq<u8>, limit: int) -> Result<
    (PsiView, Seq<Seq<u8>>),
    MpegTsError,
>
    decreases bytes.len(),
{
    if bytes.len() == 0 || (s.buffer.len() == 0 && bytes[0] == 0xff) || !psi_wf(s) {
        Ok((s, seq![]))
    } else {
        let take1 = if s.expected is None {
            min_int(3 - s.buffer.len(), bytes.len() as int)
        } else {
            0
        };
        let buf1 = s.buffer + bytes.take(take1);
        let rest1 = bytes.skip(take1);
        if s.expected is None && buf1.len() < 3 {
            Ok((PsiView { buffer: buf1, expected: None }, seq![]))
        } else if s.expected is None && section_size(buf1) > limit {
            Err(MpegTsError::PsiSectionTooLarge { actual: section_size(buf1) as usize, limit: limit as usize })
        } else {
            let expected = if s.expected is None {
                section_size(buf1)
            } else {
                s.expected->0
            };
            let take2 = min_int(expected - buf1.len(), rest1.len() as int);
            let buf2 = buf1 + rest1.take(take2);
            let rest2 = rest1.skip(take2);
            if buf2.len() == expected {
                with_sections(seq![buf2], psi_consume(psi_empty(), rest2, limit))
            } else {
                psi_consume(PsiView { buffer: buf2, expected: Some(expected) }, rest2, limit)
            }
        }
    }
}

/// Feeds one packet payload to a PSI assembler, honoring the pointer field at unit starts.
pub open spec fn psi_push(s: PsiView, payload: Seq<u8>, unit_start: bool, limit: int) -> Result<
    (PsiView, Seq<Seq<u8>>),
    MpegTsError,
> {
    if payload.len() == 0 {
        Ok((s, seq![]))
    } else if !unit_start {
        if s.buffer.len() == 0 {
            Ok((s, seq![]))
        } else {
            psi_consume(s, payload, limit)
        }
    } else if payload[0] as int > payload.len() - 1 {
        Err(MpegTsError::InvalidPsi("pointer exceeds packet payload"))
    } else {
        let prefix = payload.subrange(1, 1 + payload[0] as int);
        let sections = payload.skip(1 + payload[0] as int);
        if s.buffer.len() != 0 {
            match psi_consume(s, prefix, limit) {
                Err(e) => Err(e),
                Ok((s1, done)) => if s1.buffer.len() != 0 {
                    Err(MpegTsError::TruncatedPsi)
                } else {
                    with_sections(done, psi_consume(s1, sections, limit))
                },
            }
        } else {
            psi_consume(s, sections, limit)
        }
    }
}

/// The byte contents of each section, in order.
pub open spec fn sections_view(sections: Seq<Vec<u8>>) -> Seq<Seq<u8>> {
    sections.map_values(|v: Vec<u8>| v@)
}

pub proof fn lemma_with_sections_assoc(
    a: Seq<Seq<u8>>,
    b: Seq<Seq<u8>>,
    r: Result<(PsiView, Seq<Seq<u8>>), MpegTsError>,
)
    ensures
        with_sections(a, with_sections(b, r)) == with_sections(a + b, r),
{
    match r {
        Ok((s, more)) => {
            assert(a + (b + more) =~= (a + b) + more);
        },
        Err(_) => {},
    }
}

/// One unfolding of [`psi_consume`] past its header phase.
pub proof fn lemma_psi_step(
    s: PsiView,
    bytes: Seq<u8>,
    limit: int,
    buf1: Seq<u8>,
    rest1: Seq<u8>,
    expected: int,
)
    requires
        bytes.len() > 0,
        !(s.buffer.len() == 0 && bytes[0] == 0xff),
        psi_wf(s),
        buf1 == s.buffer + bytes.take(
            if s.expected is None {
                min_int(3 - s.buffer.len(), bytes.len() as int)
            } else {
                0
            },
        ),
        rest1 == bytes.skip(
            if s.expected is None {
                min_int(3 - s.buffer.len(), bytes.len() as int)
            } else {
                0
            },
        ),
        buf1.len() >= 3,
        s.expected is None ==> section_size(buf1) <= limit && expected == section_size(buf1),
        s.expected is Some ==> expected == s.expected->0,
    ensures
        ({
            let take2 = min_int(expected - buf1.len(), rest1.len() as int);
            let buf2 = buf1 + rest1.take(take2);
            let rest2 = rest1.skip(take2);
            psi_consume(s, bytes, limit) == if buf2.len() == expected {
                with_sections(seq![buf2], psi_consume(psi_empty(), rest2, limit))
            } else {
                psi_consume(PsiView { buffer: buf2, expected: Some(expected) }, rest2, limit)
            }
        }),
{
    reveal(psi_consume);
}

/// The cases in which [`psi_consume`] stops at once or fails in its header phase.
pub proof fn lemma_psi_early(s: PsiView, bytes: Seq<u8>, limit: int)
    requires
        psi_wf(s),
    ensures
        bytes.len() == 0 || (s.buffer.len() == 0 && bytes[0] == 0xff) ==> psi_consume(s, bytes, limit)
            == Ok::<(PsiView, Seq<Seq<u8>>), MpegTsError>((s, Seq::empty())),
        bytes.len() > 0 && !(s.buffer.len() == 0 && bytes[0] == 0xff) && s.expected is None
            ==> ({
            let take1 = min_int(3 - s.buffer.len(), bytes.len() as int);
            let buf1 = s.buffer + bytes.take(take1);
            &&& buf1.len() < 3 ==> psi_consume(s, bytes, limit) == Ok::<
                (PsiView, Seq<Seq<u8>>),
                MpegTsError,
            >((PsiView { buffer: buf1, expected: None }, Seq::empty()))
            &&& buf1.len() >= 3 && section_size(buf1) > limit ==> psi_consume(s, bytes, limit)
                == Err::<(PsiView, Seq<Seq<u8>>), MpegTsError>(
                MpegTsError::PsiSectionTooLarge {
                    actual: section_size(buf1) as usize,
                    limit: limit as usize,
                },
            )
        }),
{
    reveal(psi_consume);
}

/// Zero or one completed section.
pub open spec fn opt_section(done: Option<Vec<u8>>) -> Seq<Seq<u8>> {
    match done {
        Some(d) => seq![d@],
        None => Seq::<Seq<u8>>::empty(),
    }
}

pub struct PsiAssembler {
    buffer: Vec<u8>,
    expected: Option<usize>,
}

impl View for PsiAssembler {
    type V = PsiView;

    closed spec fn view(&self) -> PsiView {
        PsiView {
            buffer: self.buffer@,
            expected: match self.expected {
                Some(e) => Some(e as int),
                None => None,
            },
        }
    }
}

/// Every section in the sequence is at least as long as a section header.
pub open spec fn sections_min3(done: Seq<Seq<u8>>) -> bool {
    forall|i: int| 0 <= i < done.len() ==> #[trigger] done[i].len() >= 3
}

pub proof fn lemma_psi_consume_wf(s: PsiView, bytes: Seq<u8>, limit: int)
    requires
        psi_wf(s),
    ensures
        psi_consume(s, bytes, limit) matches Ok((t, done)) ==> psi_wf(t) && sections_min3(done),
    decreases bytes.len(),
{
    reveal(psi_consume);
    if bytes.len() == 0 || (s.buffer.len() == 0 && bytes[0] == 0xff) {
    } else {
        let take1 = if s.expected is None {
            min_int(3 - s.buffer.len(), bytes.len() as int)
        } else {
            0
        };
        let buf1 = s.buffer + bytes.take(take1);
        let rest1 = bytes.skip(take1);
        if s.expected is None && buf1.len() < 3 {
        } else if s.expected is None && section_size(buf1) > limit {
        } else {
            let expected = if s.expected is None {
                section_size(buf1)
            } else {
                s.expected->0
            };
            let take2 = min_int(expected - buf1.len(), rest1.len() as int);
            let buf2 = buf1 + rest1.take(take2);
            let rest2 = rest1.skip(take2);
            if buf2.len() == expected {
                lemma_psi_consume_wf(psi_empty(), rest2, limit);
                match psi_consume(psi_empty(), rest2, limit) {
                    Ok((t, more)) => {
                        let done = seq![buf2] + more;
                        assert forall|i: int| 0 <= i < done.len() implies #[trigger] done[i].len()
                            >= 3 by {
                            if i > 0 {
                                assert(done[i] == more[i - 1]);
                            }
                        }
                    },
                    Err(_) => {},
                }
            } else {
                lemma_psi_consume_wf(PsiView { buffer: buf2, expected: Some(expected) }, rest2, limit);
            }
        }
    }
}

pub proof fn lemma_psi_push_sections(s: PsiView, payload: Seq<u8>, unit_start: bool, limit: int)
    requires
        psi_wf(s),
    ensures
        psi_push(s, payload, unit_start, limit) matches Ok((t, done)) ==> sections_min3(done),
{
    if payload.len() == 0 {
    } else if !unit_start {
        lemma_psi_consume_wf(s, payload, limit);
    } else if payload[0] as int > payload.len() - 1 {
    } else {
        let prefix = payload.subrange(1, 1 + payload[0] as int);
        let sections = payload.skip(1 + payload[0] as int);
        lemma_psi_consume_wf(s, prefix, limit);
        lemma_psi_consume_wf(s, sections, limit);
        if s.buffer.len() != 0 {
            match psi_consume(s, prefix, limit) {
                Err(e) => {},
                Ok((s1, done)) => {
                    lemma_psi_consume_wf(s1, sections, limit);
                    match psi_consume(s1, sections, limit) {
                        Ok((t, more)) => {
                            let all = done + more;
                            assert forall|i: int| 0 <= i < all.len() implies #[trigger] all[i].len()
                                >= 3 by {
                                if i >= done.len() {
                                    assert(all[i] == more[i - done.len()]);
                                } else {
                                    assert(all[i] == done[i]);
                                }
                            }
                        },
                        Err(_) => {},
                    }
                },
            }
        }
    }
}

impl PsiAssembler {
    pub closed spec fn wf(&self) -> bool {
        &&& psi_wf(self@)
        &&& self.expected matches Some(e) ==> e <= usize::MAX
    }

    pub fn new() -> (result: Self)
        ensures
            result@ == psi_empty(),
            result.wf(),
    {
        PsiAssembler { buffer: Vec::new(), expected: None }
    }

    pub fn is_partial(&self) -> (partial: bool)
        ensures
            partial == (self@.buffer.len() != 0),
    {
        self.buffer.len() != 0
    }

    #[verifier::rlimit(80)]
    #[verifier::spinoff_prover]
    /// One assembly step at `pos`: either stops, or consumes at least one byte and possibly
    /// completes a section.
    fn step(&mut self, bytes: &[u8], pos: usize, limit: usize) -> (result: Result<
        (usize, Option<Vec<u8>>, bool),
        MpegTsError,
    >)
        requires
            old(self).wf(),
            pos <= bytes@.len(),
        ensures
            match result {
                Err(e) => psi_consume(old(self)@, bytes@.skip(pos as int), limit as int) == Err::<
                    (PsiView, Seq<Seq<u8>>),
                    MpegTsError,
                >(e),
                Ok((next, done, stop)) => {
                    &&& final(self).wf()
                    &&& stop ==> done is None
                    &&& !stop ==> pos < next <= bytes@.len()
                    &&& psi_consume(old(self)@, bytes@.skip(pos as int), limit as int)
                        == with_sections(
                        opt_section(done),
                        if stop {
                            Ok((final(self)@, Seq::<Seq<u8>>::empty()))
                        } else {
                            psi_consume(final(self)@, bytes@.skip(next as int), limit as int)
                        },
                    )
                },
            },
    {
        let ghost rest = bytes@.skip(pos as int);
        let ghost cur = self@;
        proof {
            lemma_psi_early(cur, rest, limit as int);
        }
        if pos == bytes.len() || (self.buffer.len() == 0 && bytes[pos] == 0xff) {
            proof {
                assert(Seq::<Seq<u8>>::empty() + Seq::<Seq<u8>>::empty() =~= Seq::<Seq<u8>>::empty());
            }
            return Ok((pos, None, true));
        }
        let mut at = pos;
        let expected: usize;
        if self.expected.is_none() {
            let needed = 3 - self.buffer.len();
            let take1 = if needed < bytes.len() - at { needed } else { bytes.len() - at };
            self.buffer.extend_from_slice(&bytes[at..at + take1]);
            at = at + take1;
            proof {
                assert(self.buffer@ =~= cur.buffer + rest.take(take1 as int));
                assert(bytes@.skip(at as int) =~= rest.skip(take1 as int));
            }
            if self.buffer.len() < 3 {
                proof {
                    assert(Seq::<Seq<u8>>::empty() + Seq::<Seq<u8>>::empty() =~= Seq::<Seq<u8>>::empty());
                }
                return Ok((at, None, true));
            }
            proof {
                lemma_masks(self.buffer@[1]);
            }
            let section_length = ((self.buffer[1] & 0x0f) as usize) * 256 + self.buffer[2] as usize;
            let e = 3 + section_length;
            if e > limit {
                return Err(MpegTsError::PsiSectionTooLarge { actual: e, limit });
            }
            self.expected = Some(e);
            expected = e;
        } else {
            expected = self.expected.unwrap();
            proof {
                assert(rest.skip(0) =~= rest);
                assert(rest.take(0) =~= Seq::<u8>::empty());
                assert(self.buffer@ =~= cur.buffer + rest.take(0));
            }
        }
        let ghost buf1 = self.buffer@;
        let ghost rest1 = bytes@.skip(at as int);
        proof {
            lemma_psi_step(cur, rest, limit as int, buf1, rest1, expected as int);
        }
        let needed = expected - self.buffer.len();
        let take2 = if needed < bytes.len() - at { needed } else { bytes.len() - at };
        self.buffer.extend_from_slice(&bytes[at..at + take2]);
        at = at + take2;
        proof {
            assert(self.buffer@ =~= buf1 + rest1.take(take2 as int));
            assert(bytes@.skip(at as int) =~= rest1.skip(take2 as int));
        }
        if self.buffer.len() == expected {
            let mut section: Vec<u8> = Vec::new();
            std::mem::swap(&mut section, &mut self.buffer);
            self.expected = None;
            proof {
                assert(self@ =~= psi_empty());
            }
            Ok((at, Some(section), false))
        } else {
            proof {
                assert(self@ =~= PsiView { buffer: buf1 + rest1.take(take2 as int), expected: Some(expected as int) });
                match psi_consume(self@, bytes@.skip(at as int), limit as int) {
                    Ok((t, more)) => {
                        assert(Seq::<Seq<u8>>::empty() + more =~= more);
                    },
                    Err(_) => {},
                }
            }
            Ok((at, None, false))
        }
    }

    pub fn consume(&mut self, bytes: &[u8], limit: usize) -> (result: Result<Vec<Vec<u8>>, MpegTsError>)
        requires
            old(self).wf(),
        ensures
            match psi_consume(old(self)@, bytes@, limit as int) {
                Ok((s, done)) => result is Ok && final(self)@ == s && final(self).wf()
                    && sections_view(result->Ok_0@) == done,
                Err(e) => result == Err::<Vec<Vec<u8>>, MpegTsError>(e),
            },
    {
        let ghost s0 = self@;
        let mut completed: Vec<Vec<u8>> = Vec::new();
        let mut pos: usize = 0;
        proof {
            assert(bytes@.skip(0) == bytes@);
            assert(sections_view(completed@) =~= Seq::<Seq<u8>>::empty());
            match psi_consume(s0, bytes@, limit as int) {
                Ok((t, more)) => {
                    assert(Seq::<Seq<u8>>::empty() + more =~= more);
                },
                Err(_) => {},
            }
        }
        loop
            invariant
                self.wf(),
                s0 == old(self)@,
                pos <= bytes@.len(),
                psi_consume(s0, bytes@, limit as int) == with_sections(
                    sections_view(completed@),
                    psi_consume(self@, bytes@.skip(pos as int), limit as int),
                ),
            decreases bytes@.len() - pos,
        {
            let ghost before = sections_view(completed@);
            let (next, done, stop) = self.step(bytes, pos, limit)?;
            let ghost done_seq = opt_section(done);
            match done {
                Some(section) => {
                    completed.push(section);
                },
                None => {},
            }
            proof {
                assert(sections_view(completed@) =~= before + done_seq);
                lemma_with_sections_assoc(
                    before,
                    done_seq,
                    if stop {
                        Ok((self@, Seq::<Seq<u8>>::empty()))
                    } else {
                        psi_consume(self@, bytes@.skip(next as int), limit as int)
                    },
                );
            }
            if stop {
                proof {
                    assert(sections_view(completed@) + Seq::<Seq<u8>>::empty() =~= sections_view(completed@));
                }
                return Ok(completed);
            }
            pos = next;
        }
    }

    pub fn push(&mut self, payload: &[u8], unit_start: bool, limit: usize) -> (result: Result<
        Vec<Vec<u8>>,
        MpegTsError,
    >)
        requires
            old(self).wf(),
        ensures
            match psi_push(old(self)@, payload@, unit_start, limit as int) {
                Ok((s, done)) => result is Ok && final(self)@ == s && final(self).wf()
                    && sections_view(result->Ok_0@) == done,
                Err(e) => result == Err::<Vec<Vec<u8>>, MpegTsError>(e),
            },
    {
        if payload.len() == 0 {
            let v: Vec<Vec<u8>> = Vec::new();
            proof {
                assert(sections_view(v@) =~= Seq::<Seq<u8>>::empty());
            }
            return Ok(v);
        }
        if !unit_start {
            if self.buffer.len() == 0 {
                let v: Vec<Vec<u8>> = Vec::new();
                proof {
                    assert(sections_view(v@) =~= Seq::<Seq<u8>>::empty());
                }
                return Ok(v);
            }
            return self.consume(payload, limit);
        }
        let pointer = payload[0] as usize;
        if pointer > payload.len() - 1 {
            return Err(MpegTsError::InvalidPsi("pointer exceeds packet payload"));
        }
        let prefix = &payload[1..1 + pointer];
        let sections = &payload[1 + pointer..payload.len()];
        proof {
            assert(prefix@ == payload@.subrange(1, 1 + pointer));
            assert(sections@ =~= payload@.skip(1 + pointer));
        }
        if self.buffer.len() != 0 {
            let mut completed = self.consume(prefix, limit)?;
            if self.buffer.len() != 0 {
                return Err(MpegTsError::TruncatedPsi);
            }
            let ghost first = sections_view(completed@);
            let mut more = self.consume(sections, limit)?;
            let ghost second = sections_view(more@);
            completed.append(&mut more);
            proof {
                assert(sections_view(completed@) =~= first + second);
            }
            Ok(completed)
        } else {
            self.consume(sections, limit)
        }
    }
}

} // verus!

verus! {

// ---------------------------------------------------------------------------------------------
// PAT, PMT and SDT sections
// ---------------------------------------------------------------------------------------------

pub open spec fn be16(hi: u8, lo: u8) -> int {
    hi as int * 256 + lo as int
}

pub open spec fn low12(hi: u8, lo: u8) -> int {
    (hi & 0x0f) as int * 256 + lo as int
}

pub open spec fn pid13(hi: u8, lo: u8) -> u16 {
    ((hi & 0x1f) as int * 256 + lo as int) as u16
}

/// The PMT PID of the first non-zero program in the PAT program loop `[pos, end)`.
pub open spec fn pat_scan(section: Seq<u8>, pos: int, end: int) -> Option<u16>
    decreases end - pos,
{
    if pos + 4 > end {
        None
    } else if be16(section[pos], section[pos + 1]) != 0 {
        Some(pid13(section[pos + 2], section[pos + 3]))
    } else {
        pat_scan(section, pos + 4, end)
    }
}

pub open spec fn spec_parse_pat(section: Seq<u8>) -> Result<Option<u16>, MpegTsError> {
    if section[0] != 0x00 {
        Ok(None)
    } else if section.len() < 12 {
        Err(MpegTsError::InvalidPsi("PAT is too short"))
    } else if (section.len() - 12) % 4 != 0 {
        Err(MpegTsError::InvalidPsi("PAT program loop is malformed"))
    } else {
        Ok(pat_scan(section, 8, section.len() - 4))
    }
}

pub fn parse_pat(section: &[u8]) -> (result: Result<Option<u16>, MpegTsError>)
    requires
        section@.len() >= 3,
    ensures
        result == spec_parse_pat(section@),
        result matches Ok(Some(pid)) ==> pid < 8192,
{
    if section[0] != 0x00 {
        return Ok(None);
    }
    if section.len() < 12 {
        return Err(MpegTsError::InvalidPsi("PAT is too short"));
    }
    let end = section.len() - 4;
    if (end - 8) % 4 != 0 {
        return Err(MpegTsError::InvalidPsi("PAT program loop is malformed"));
    }
    let mut pos: usize = 8;
    while end - pos >= 4
        invariant
            8 <= pos <= end,
            end == section@.len() - 4,
            section@[0] == 0x00,
            section@.len() >= 12,
            (section@.len() - 12) % 4 == 0,
            (end - pos) % 4 == 0,
            pat_scan(section@, 8, end as int) == pat_scan(section@, pos as int, end as int),
        decreases end - pos,
    {
        let program = section[pos] as u16 * 256 + section[pos + 1] as u16;
        if program != 0 {
            proof {
                lemma_masks(section@[pos + 2]);
            }
            let pid = ((section[pos + 2] & 0x1f) as u16) * 256 + section[pos + 3] as u16;
            assert(be16(section@[pos as int], section@[pos + 1]) != 0);
            assert(pid == pid13(section@[pos + 2], section@[pos + 3]));
            return Ok(Some(pid));
        }
        pos = pos + 4;
    }
    Ok(None)
}

/// Scans the PMT stream loop `[position, end)`; the last ADTS stream wins.
pub open spec fn pmt_scan(section: Seq<u8>, position: int, end: int, selected: Option<u16>) -> Result<
    Option<u16>,
    MpegTsError,
>
    decreases end - position,
{
    if position >= end {
        Ok(selected)
    } else if end - position < 5 {
        Err(MpegTsError::InvalidPsi("PMT stream entry is truncated"))
    } else {
        let next = position + 5 + low12(section[position + 3], section[position + 4]);
        if next > usize::MAX {
            Err(MpegTsError::InvalidPsi("PMT stream length overflows"))
        } else if next > end {
            Err(MpegTsError::InvalidPsi("PMT stream descriptors exceed the section"))
        } else {
            pmt_scan(
                section,
                next,
                end,
                if section[position] == ADTS_STREAM_TYPE {
                    Some(pid13(section[position + 1], section[position + 2]))
                } else {
                    selected
                },
            )
        }
    }
}

pub open spec fn spec_parse_pmt(section: Seq<u8>) -> Result<Option<u16>, MpegTsError> {
    if section[0] != 0x02 {
        Ok(None)
    } else if section.len() < 16 {
        Err(MpegTsError::InvalidPsi("PMT is too short"))
    } else if 12 + low12(section[10], section[11]) > section.len() - 4 {
        Err(MpegTsError::InvalidPsi("PMT descriptors exceed the section"))
    } else {
        pmt_scan(section, 12 + low12(section[10], section[11]), section.len() - 4, None)
    }
}

pub fn parse_pmt(section: &[u8]) -> (result: Result<Option<u16>, MpegTsError>)
    requires
        section@.len() >= 3,
    ensures
        result == spec_parse_pmt(section@),
        result matches Ok(Some(pid)) ==> pid < 8192,
{
    if section[0] != 0x02 {
        return Ok(None);
    }
    if section.len() < 16 {
        return Err(MpegTsError::InvalidPsi("PMT is too short"));
    }
    let end = section.len() - 4;
    proof {
        lemma_masks(section@[10]);
    }
    let program_info_length = ((section[10] & 0x0f) as usize) * 256 + section[11] as usize;
    let mut position = 12 + program_info_length;
    if position > end {
        return Err(MpegTsError::InvalidPsi("PMT descriptors exceed the section"));
    }
    let mut selected: Option<u16> = None;
    while position < end
        invariant
            position <= end,
            end == section@.len() - 4,
            selected matches Some(pid) ==> pid < 8192,
            spec_parse_pmt(section@) == pmt_scan(section@, position as int, end as int, selected),
        decreases end - position,
    {
        if end - position < 5 {
            return Err(MpegTsError::InvalidPsi("PMT stream entry is truncated"));
        }
        let stream_type = section[position];
        proof {
            lemma_masks(section@[position + 1]);
            lemma_masks(section@[position + 3]);
        }
        let pid = ((section[position + 1] & 0x1f) as u16) * 256 + section[position + 2] as u16;
        let info_length = ((section[position + 3] & 0x0f) as usize) * 256
            + section[position + 4] as usize;
        if position > usize::MAX - 5 - info_length {
            return Err(MpegTsError::InvalidPsi("PMT stream length overflows"));
        }
        let next = position + 5 + info_length;
        if next > end {
            return Err(MpegTsError::InvalidPsi("PMT stream descriptors exceed the section"));
        }
        if stream_type == ADTS_STREAM_TYPE {
            selected = Some(pid);
        }
        position = next;
    }
    Ok(selected)
}

/// One elementary stream listed in a program map: its stream type, PID and descriptor bytes.
pub struct PmtStream {
    pub stream_type: u8,
    pub pid: u16,
    pub descriptors: Seq<u8>,
}

/// The wire form of a stream entry: the type, the PID under three reserved bits, the descriptor
/// length under four reserved bits, then the descriptors.
pub open spec fn pmt_stream_bytes(s: PmtStream) -> Seq<u8> {
    seq![
        s.stream_type,
        0xE0u8 | ((s.pid / 256) as u8),
        (s.pid % 256) as u8,
        0xF0u8 | ((s.descriptors.len() / 256) as u8),
        (s.descriptors.len() % 256) as u8,
    ] + s.descriptors
}

/// The stream loop of a program map: the entries, one after another.
pub open spec fn pmt_loop_bytes(streams: Seq<PmtStream>) -> Seq<u8>
    decreases streams.len(),
{
    if streams.len() == 0 {
        Seq::empty()
    } else {
        pmt_stream_bytes(streams[0]) + pmt_loop_bytes(streams.drop_first())
    }
}

/// A program map section: ten header bytes starting with table id `0x02`, the program info
/// length, the program info, the stream loop and the four CRC bytes.
pub open spec fn pmt_section_bytes(
    header: Seq<u8>,
    program_info: Seq<u8>,
    streams: Seq<PmtStream>,
    crc: Seq<u8>,
) -> Seq<u8> {
    header + seq![
        0xF0u8 | ((program_info.len() / 256) as u8),
        (program_info.len() % 256) as u8,
    ] + program_info + pmt_loop_bytes(streams) + crc
}

/// The PID of the last stream of type `0x0F` (ADTS) in a list, if there is one.
pub open spec fn last_adts_pid(streams: Seq<PmtStream>) -> Option<u16>
    decreases streams.len(),
{
    if streams.len() == 0 {
        None
    } else {
        match last_adts_pid(streams.drop_first()) {
            Some(p) => Some(p),
            None => if streams[0].stream_type == 0x0F {
                Some(streams[0].pid)
            } else {
                None
            },
        }
    }
}

proof fn lemma_reserved_bits(h: u8)
    ensures
        h < 16 ==> (0xF0u8 | h) & 0x0f == h,
        h < 32 ==> (0xE0u8 | h) & 0x1f == h,
{
    assert(h < 16 ==> (0xF0u8 | h) & 0x0f == h) by (bit_vector);
    assert(h < 32 ==> (0xE0u8 | h) & 0x1f == h) by (bit_vector);
}

proof fn lemma_last_adts_pid(streams: Seq<PmtStream>, k: int)
    ensures
        (forall|j: int| 0 <= j < streams.len() ==> (#[trigger] streams[j]).stream_type != 0x0F)
            ==> last_adts_pid(streams) is None,
        0 <= k < streams.len() && streams[k].stream_type == 0x0F && (forall|j: int|
            k < j < streams.len() ==> (#[trigger] streams[j]).stream_type != 0x0F)
            ==> last_adts_pid(streams) == Some(streams[k].pid),
    decreases streams.len(),
{
    if streams.len() > 0 {
        let rest = streams.drop_first();
        lemma_last_adts_pid(rest, k - 1);
        if forall|j: int| 0 <= j < streams.len() ==> (#[trigger] streams[j]).stream_type != 0x0F {
            assert forall|j: int| 0 <= j < rest.len() implies (#[trigger] rest[j]).stream_type
                != 0x0F by {
                assert(rest[j] == streams[j + 1]);
            }
        }
        if 0 <= k < streams.len() && streams[k].stream_type == 0x0F && (forall|j: int|
            k < j < streams.len() ==> (#[trigger] streams[j]).stream_type != 0x0F) {
            assert forall|j: int| k - 1 < j < rest.len() implies (#[trigger] rest[j]).stream_type
                != 0x0F by {
                assert(rest[j] == streams[j + 1]);
            }
            if k == 0 {
                lemma_last_adts_pid(rest, -1);
                assert forall|j: int| 0 <= j < rest.len() implies (#[trigger] rest[j]).stream_type
                    != 0x0F by {
                    assert(rest[j] == streams[j + 1]);
                }
            } else {
                assert(rest[k - 1] == streams[k]);
            }
        }
    }
}

proof fn lemma_pmt_scan_loop(
    section: Seq<u8>,
    position: int,
    end: int,
    selected: Option<u16>,
    streams: Seq<PmtStream>,
)
    requires
        0 <= position <= end <= section.len() <= usize::MAX,
        section.subrange(position, end) == pmt_loop_bytes(streams),
        forall|j: int|
            0 <= j < streams.len() ==> (#[trigger] streams[j]).pid < 8192
                && streams[j].descriptors.len() < 4096,
    ensures
        pmt_scan(section, position, end, selected) == Ok::<Option<u16>, MpegTsError>(
            match last_adts_pid(streams) {
                Some(p) => Some(p),
                None => selected,
            },
        ),
    decreases streams.len(),
{
    if streams.len() == 0 {
        assert(section.subrange(position, end).len() == 0);
    } else {
        let s0 = streams[0];
        let rest = streams.drop_first();
        let b0 = pmt_stream_bytes(s0);
        let n = s0.descriptors.len();
        assert(pmt_loop_bytes(streams) == b0 + pmt_loop_bytes(rest));
        assert(b0[3] == 0xF0u8 | ((n / 256) as u8));
        assert(b0[4] == (n % 256) as u8);
        assert(b0[1] == 0xE0u8 | ((s0.pid / 256) as u8));
        assert(b0[2] == (s0.pid % 256) as u8);
        assert(s0.pid < 8192 && n < 4096);
        assert forall|i: int| 0 <= i < b0.len() implies section[position + i] == b0[i] by {
            assert(section.subrange(position, end)[i] == section[position + i]);
        }
        lemma_reserved_bits((n / 256) as u8);
        lemma_reserved_bits((s0.pid / 256) as u8);
        assert(section[position + 3] == 0xF0u8 | ((n / 256) as u8));
        assert(section[position + 4] == (n % 256) as u8);
        assert(low12(section[position + 3], section[position + 4]) == n);
        assert(section[position + 1] == 0xE0u8 | ((s0.pid / 256) as u8));
        assert(section[position + 2] == (s0.pid % 256) as u8);
        assert(pid13(section[position + 1], section[position + 2]) == s0.pid);
        let next = position + 5 + n;
        assert(b0[0] == s0.stream_type);
        assert(section[position] == s0.stream_type);
        assert(b0.len() == 5 + n);
        assert(end - position == b0.len() + pmt_loop_bytes(rest).len());
        assert(next <= end);
        assert(section.subrange(next, end) =~= pmt_loop_bytes(rest)) by {
            assert forall|i: int| 0 <= i < end - next implies section.subrange(next, end)[i]
                == pmt_loop_bytes(rest)[i] by {
                assert(section.subrange(position, end)[5 + n + i] == (b0 + pmt_loop_bytes(
                    rest,
                ))[5 + n + i]);
            }
        }
        let sel2 = if section[position] == ADTS_STREAM_TYPE {
            Some(pid13(section[position + 1], section[position + 2]))
        } else {
            selected
        };
        assert forall|j: int| 0 <= j < rest.len() implies (#[trigger] rest[j]).pid < 8192
            && rest[j].descriptors.len() < 4096 by {
            assert(rest[j] == streams[j + 1]);
        }
        lemma_pmt_scan_loop(section, next, end, sel2, rest);
    }
}

/// A program map selects the last stream of type `0x0F` (ADTS) among all its entries, wherever
/// it stands in the loop, and no stream when none has that type.
pub proof fn law_pmt_selects_last_adts_stream(
    header: Seq<u8>,
    program_info: Seq<u8>,
    streams: Seq<PmtStream>,
    crc: Seq<u8>,
)
    requires
        header.len() == 10,
        header[0] == 0x02,
        program_info.len() < 4096,
        crc.len() == 4,
        forall|j: int|
            0 <= j < streams.len() ==> (#[trigger] streams[j]).pid < 8192
                && streams[j].descriptors.len() < 4096,
        pmt_section_bytes(header, program_info, streams, crc).len() <= usize::MAX,
    ensures
        (forall|j: int| 0 <= j < streams.len() ==> (#[trigger] streams[j]).stream_type != 0x0F)
            ==> spec_parse_pmt(pmt_section_bytes(header, program_info, streams, crc)) == Ok::<
            Option<u16>,
            MpegTsError,
        >(None),
        forall|k: int|
            #![trigger streams[k]]
            0 <= k < streams.len() && streams[k].stream_type == 0x0F && (forall|j: int|
                k < j < streams.len() ==> (#[trigger] streams[j]).stream_type != 0x0F)
                ==> spec_parse_pmt(pmt_section_bytes(header, program_info, streams, crc)) == Ok::<
                Option<u16>,
                MpegTsError,
            >(Some(streams[k].pid)),
{
    let section = pmt_section_bytes(header, program_info, streams, crc);
    let m = program_info.len();
    let body = pmt_loop_bytes(streams);
    let start = 12 + m as int;
    let end = section.len() - 4;
    lemma_reserved_bits((m / 256) as u8);
    assert(section[10] == 0xF0u8 | ((m / 256) as u8));
    assert(section[11] == (m % 256) as u8);
    assert(low12(section[10], section[11]) == m);
    assert(section[0] == 0x02);
    assert(section.len() == start + body.len() + 4);
    assert(section.subrange(start, end) =~= body);
    lemma_pmt_scan_loop(section, start, end, None, streams);
    assert forall|k: int|
        #![trigger streams[k]]
        0 <= k < streams.len() && streams[k].stream_type == 0x0F && (forall|j: int|
            k < j < streams.len() ==> (#[trigger] streams[j]).stream_type != 0x0F)
            implies spec_parse_pmt(section) == Ok::<Option<u16>, MpegTsError>(
        Some(streams[k].pid),
    ) by {
        lemma_last_adts_pid(streams, k);
    }
    lemma_last_adts_pid(streams, -1);
}

/// Printable text of a metadata byte string: ASCII bytes map to themselves and every other byte
/// to U+FFFD; an empty string is absent.
pub open spec fn ascii_text(bytes: Seq<u8>) -> Option<Seq<char>> {
    if bytes.len() == 0 {
        None
    } else {
        Some(
            Seq::new(
                bytes.len(),
                |i: int|
                    if bytes[i] < 128 {
                        bytes[i] as char
                    } else {
                        '\u{FFFD}'
                    },
            ),
        )
    }
}

pub fn nonempty_ascii(bytes: &[u8]) -> (result: Option<String>)
    ensures
        opt_string_view(result) == ascii_text(bytes@),
{
    if bytes.len() == 0 {
        return None;
    }
    let mut chars: Vec<char> = Vec::new();
    let mut i: usize = 0;
    while i < bytes.len()
        invariant
            i <= bytes@.len(),
            chars@.len() == i,
            forall|j: int|
                0 <= j < i ==> chars@[j] == (if bytes@[j] < 128 {
                    bytes@[j] as char
                } else {
                    '\u{FFFD}'
                }),
        decreases bytes@.len() - i,
    {
        let byte = bytes[i];
        if byte < 128 {
            chars.push(byte as char);
        } else {
            chars.push('\u{FFFD}');
        }
        i = i + 1;
    }
    let text = string_from_chars(chars.as_slice());
    proof {
        assert(text@ =~= ascii_text(bytes@)->0);
    }
    Some(text)
}

pub open spec fn spec_service_descriptor(data: Seq<u8>, limit: int) -> Result<MetadataView, MpegTsError> {
    if data.len() < 3 {
        Err(MpegTsError::InvalidPsi("SDT service descriptor is too short"))
    } else if 2 + data[1] as int >= data.len() {
        Err(MpegTsError::InvalidPsi("SDT provider is truncated"))
    } else {
        let provider_end = 2 + data[1] as int;
        let service_start = provider_end + 1;
        let service_end = service_start + data[provider_end] as int;
        if service_end > data.len() {
            Err(MpegTsError::InvalidPsi("SDT service name is truncated"))
        } else if data[1] as int > limit {
            Err(MpegTsError::MetadataTooLarge { actual: data[1] as usize, limit: limit as usize })
        } else if data[provider_end] as int > limit {
            Err(
                MpegTsError::MetadataTooLarge {
                    actual: data[provider_end] as usize,
                    limit: limit as usize,
                },
            )
        } else {
            Ok(
                MetadataView {
                    provider: ascii_text(data.subrange(2, provider_end)),
                    name: ascii_text(data.subrange(service_start, service_end)),
                },
            )
        }
    }
}

pub fn parse_service_descriptor(data: &[u8], limit: usize, metadata: &mut MpegTsMetadata) -> (result: Result<
    (),
    MpegTsError,
>)
    ensures
        match spec_service_descriptor(data@, limit as int) {
            Ok(m) => result is Ok && final(metadata)@ == m,
            Err(e) => result == Err::<(), MpegTsError>(e) && final(metadata)@ == old(metadata)@,
        },
{
    if data.len() < 3 {
        return Err(MpegTsError::InvalidPsi("SDT service descriptor is too short"));
    }
    let provider_length = data[1] as usize;
    let provider_end = 2 + provider_length;
    if provider_end >= data.len() {
        return Err(MpegTsError::InvalidPsi("SDT provider is truncated"));
    }
    let service_length = data[provider_end] as usize;
    let service_start = provider_end + 1;
    let service_end = service_start + service_length;
    if service_end > data.len() {
        return Err(MpegTsError::InvalidPsi("SDT service name is truncated"));
    }
    if provider_length > limit {
        return Err(MpegTsError::MetadataTooLarge { actual: provider_length, limit });
    }
    if service_length > limit {
        return Err(MpegTsError::MetadataTooLarge { actual: service_length, limit });
    }
    metadata.service_provider = nonempty_ascii(&data[2..provider_end]);
    metadata.service_name = nonempty_ascii(&data[service_start..service_end]);
    Ok(())
}

/// Descriptors of one SDT service in `[position, end)`; service descriptors update metadata.
pub open spec fn sdt_descriptors(
    section: Seq<u8>,
    position: int,
    end: int,
    limit: int,
    metadata: MetadataView,
) -> Result<MetadataView, MpegTsError>
    decreases end - position,
{
    if position >= end {
        Ok(metadata)
    } else if end - position < 2 {
        Err(MpegTsError::InvalidPsi("SDT descriptor is truncated"))
    } else {
        let data_end = position + 2 + section[position + 1] as int;
        if data_end > end {
            Err(MpegTsError::InvalidPsi("SDT descriptor exceeds its loop"))
        } else if section[position] == 0x48 {
            match spec_service_descriptor(section.subrange(position + 2, data_end), limit) {
                Ok(m) => sdt_descriptors(section, data_end, end, limit, m),
                Err(e) => Err(e),
            }
        } else {
            sdt_descriptors(section, data_end, end, limit, metadata)
        }
    }
}

/// The SDT service loop `[position, end)`.
pub open spec fn sdt_services(
    section: Seq<u8>,
    position: int,
    end: int,
    limit: int,
    metadata: MetadataView,
) -> Result<MetadataView, MpegTsError>
    decreases end - position,
{
    if position >= end {
        Ok(metadata)
    } else if end - position < 5 {
        Err(MpegTsError::InvalidPsi("SDT service is truncated"))
    } else {
        let descriptor_start = position + 5;
        let descriptor_end = descriptor_start + low12(section[position + 3], section[position + 4]);
        if descriptor_end > usize::MAX {
            Err(MpegTsError::InvalidPsi("SDT descriptor length overflows"))
        } else if descriptor_end > end {
            Err(MpegTsError::InvalidPsi("SDT descriptors exceed the section"))
        } else {
            match sdt_descriptors(section, descriptor_start, descriptor_end, limit, metadata) {
                Ok(m) => sdt_services(section, descriptor_end, end, limit, m),
                Err(e) => Err(e),
            }
        }
    }
}

pub open spec fn spec_parse_sdt(section: Seq<u8>, limit: int, metadata: MetadataView) -> Result<
    MetadataView,
    MpegTsError,
> {
    if !(section[0] == 0x42 || section[0] == 0x46) {
        Ok(metadata)
    } else if section.len() < 15 {
        Err(MpegTsError::InvalidPsi("SDT is too short"))
    } else {
        sdt_services(section, 11, section.len() - 4, limit, metadata)
    }
}

fn parse_sdt_descriptors(
    section: &[u8],
    start: usize,
    end: usize,
    limit: usize,
    metadata: &mut MpegTsMetadata,
) -> (result: Result<(), MpegTsError>)
    requires
        start <= end <= section@.len(),
    ensures
        match sdt_descriptors(section@, start as int, end as int, limit as int, old(metadata)@) {
            Ok(m) => result is Ok && final(metadata)@ == m,
            Err(e) => result == Err::<(), MpegTsError>(e),
        },
{
    let mut position = start;
    while position < end
        invariant
            start <= position <= end <= section@.len(),
            sdt_descriptors(section@, start as int, end as int, limit as int, old(metadata)@)
                == sdt_descriptors(section@, position as int, end as int, limit as int, metadata@),
        decreases end - position,
    {
        if end - position < 2 {
            return Err(MpegTsError::InvalidPsi("SDT descriptor is truncated"));
        }
        let tag = section[position];
        let length = section[position + 1] as usize;
        let data_start = position + 2;
        if length > end - data_start {
            return Err(MpegTsError::InvalidPsi("SDT descriptor exceeds its loop"));
        }
        let data_end = data_start + length;
        if tag == 0x48 {
            let data = &section[data_start..data_end];
            parse_service_descriptor(data, limit, metadata)?;
        }
        position = data_end;
    }
    Ok(())
}

pub fn parse_sdt(section: &[u8], limit: usize, metadata: &mut MpegTsMetadata) -> (result: Result<
    (),
    MpegTsError,
>)
    requires
        section@.len() >= 3,
    ensures
        match spec_parse_sdt(section@, limit as int, old(metadata)@) {
            Ok(m) => result is Ok && final(metadata)@ == m,
            Err(e) => result == Err::<(), MpegTsError>(e),
        },
{
    if !(section[0] == 0x42 || section[0] == 0x46) {
        return Ok(());
    }
    if section.len() < 15 {
        return Err(MpegTsError::InvalidPsi("SDT is too short"));
    }
    let end = section.len() - 4;
    let mut service_position: usize = 11;
    while service_position < end
        invariant
            service_position <= end,
            end == section@.len() - 4,
            section@.len() >= 15,
            section[0] == 0x42 || section[0] == 0x46,
            spec_parse_sdt(section@, limit as int, old(metadata)@) == sdt_services(
                section@,
                service_position as int,
                end as int,
                limit as int,
                metadata@,
            ),
        decreases end - service_position,
    {
        if end - service_position < 5 {
            return Err(MpegTsError::InvalidPsi("SDT service is truncated"));
        }
        proof {
            lemma_masks(section@[service_position + 3]);
        }
        let descriptor_length = ((section[service_position + 3] & 0x0f) as usize) * 256
            + section[service_position + 4] as usize;
        let descriptor_start = service_position + 5;
        if descriptor_start > usize::MAX - descriptor_length {
            return Err(MpegTsError::InvalidPsi("SDT descriptor length overflows"));
        }
        let descriptor_end = descriptor_start + descriptor_length;
        if descriptor_end > end {
            return Err(MpegTsError::InvalidPsi("SDT descriptors exceed the section"));
        }
        parse_sdt_descriptors(section, descriptor_start, descriptor_end, limit, metadata)?;
        service_position = descriptor_end;
    }
    Ok(())
}

} // verus!

verus! {

// ---------------------------------------------------------------------------------------------
// PES payload extraction
// ---------------------------------------------------------------------------------------------

/// The abstract state of a [`PesExtractor`].
pub struct PesView {
    pub header: Seq<u8>,
    pub header_total: Option<int>,
    pub header_complete: bool,
    pub active: bool,
    pub remaining: Option<int>,
    pub output: Seq<u8>,
    pub limit: int,
}

pub open spec fn pes_new(limit: int) -> PesView {
    PesView {
        header: Seq::empty(),
        header_total: None,
        header_complete: false,
        active: false,
        remaining: None,
        output: Seq::empty(),
        limit,
    }
}

/// Header bytes wanted before the next decision: nine, then the full optional header.
pub open spec fn pes_target(s: PesView) -> int {
    match s.header_total {
        Some(t) => t,
        None => 9,
    }
}

pub open spec fn pes_wf(s: PesView) -> bool {
    &&& s.header_complete ==> s.header.len() == 0 && s.header_total is Some
    &&& !s.header_complete ==> s.header.len() < pes_target(s)
    &&& s.header_total matches Some(t) ==> 9 <= t <= 264 && (!s.header_complete ==> s.header.len()
        >= 9)
    &&& 0 <= s.output.len() <= s.limit <= usize::MAX
    &&& s.remaining matches Some(r) ==> 0 <= r <= 65535
}

/// A started PES packet whose header or declared payload did not arrive in full.
pub open spec fn pes_truncated(s: PesView) -> bool {
    s.active && (!s.header_complete || (s.remaining matches Some(r) && r != 0))
}

/// One round of header collection: takes bytes up to the current target and checks them.
#[verifier::opaque]
pub open spec fn pes_header_step(s: PesView, payload: Seq<u8>) -> Result<
    (PesView, Seq<u8>),
    MpegTsError,
> {
    let target = pes_target(s);
    let take = min_int(
        if target > s.header.len() {
            target - s.header.len()
        } else {
            0
        },
        payload.len() as int,
    );
    let header = s.header + payload.take(take);
    let rest = payload.skip(take);
    if header.len() >= 6 && !(header[0] == 0 && header[1] == 0 && header[2] == 1) {
        Err(MpegTsError::InvalidPes("start code is missing"))
    } else if header.len() == 9 && s.header_total is None && header[6] & 0xc0 != 0x80 {
        Err(MpegTsError::InvalidPes("MPEG-2 optional-header marker is invalid"))
    } else {
        let total = if header.len() == 9 && s.header_total is None {
            Some(9 + header[8] as int)
        } else {
            s.header_total
        };
        if total == Some(header.len() as int) {
            let packet_length = be16(header[4], header[5]);
            let optional = header[8] as int;
            if packet_length != 0 && packet_length < 3 + optional {
                Err(MpegTsError::InvalidPes("declared length is shorter than its header"))
            } else {
                Ok(
                    (
                        PesView {
                            header: Seq::empty(),
                            header_total: total,
                            header_complete: true,
                            remaining: if packet_length == 0 {
                                None
                            } else {
                                Some(packet_length - 3 - optional)
                            },
                            ..s
                        },
                        rest,
                    ),
                )
            }
        } else {
            Ok((PesView { header, header_total: total, ..s }, rest))
        }
    }
}

/// Collects header bytes until the header is complete or the payload is exhausted.
pub open spec fn pes_header_loop(s: PesView, payload: Seq<u8>) -> Result<
    (PesView, Seq<u8>),
    MpegTsError,
>
    decreases payload.len(),
{
    if s.header_complete || payload.len() == 0 {
        Ok((s, payload))
    } else {
        match pes_header_step(s, payload) {
            Err(e) => Err(e),
            Ok((s2, rest)) => if rest.len() < payload.len() {
                pes_header_loop(s2, rest)
            } else {
                Ok((s2, rest))
            },
        }
    }
}

/// Appends elementary-stream bytes, bounded by the declared PES length and the output limit.
pub open spec fn pes_append(s: PesView, payload: Seq<u8>) -> Result<PesView, MpegTsError> {
    let length = match s.remaining {
        None => payload.len() as int,
        Some(r) => min_int(r, payload.len() as int),
    };
    let actual = s.output.len() + length;
    if actual > usize::MAX {
        Err(MpegTsError::PesPayloadTooLarge { actual: usize::MAX, limit: s.limit as usize })
    } else if actual > s.limit {
        Err(MpegTsError::PesPayloadTooLarge { actual: actual as usize, limit: s.limit as usize })
    } else {
        Ok(
            PesView {
                output: s.output + payload.take(length),
                remaining: match s.remaining {
                    Some(r) => Some(r - length),
                    None => None,
                },
                ..s
            },
        )
    }
}

pub open spec fn pes_after_start(s: PesView, payload: Seq<u8>) -> Result<PesView, MpegTsError> {
    match pes_header_loop(s, payload) {
        Err(e) => Err(e),
        Ok((s2, rest)) => if s2.header_complete {
            pes_append(s2, rest)
        } else {
            Ok(s2)
        },
    }
}

/// Feeds one packet payload of the selected elementary stream.
pub open spec fn pes_push(s: PesView, payload: Seq<u8>, unit_start: bool) -> Result<
    PesView,
    MpegTsError,
> {
    if unit_start {
        if pes_truncated(s) {
            Err(MpegTsError::TruncatedPes)
        } else {
            pes_after_start(
                PesView {
                    active: true,
                    header: Seq::empty(),
                    header_total: None,
                    header_complete: false,
                    remaining: None,
                    ..s
                },
                payload,
            )
        }
    } else if !s.active {
        Ok(s)
    } else {
        pes_after_start(s, payload)
    }
}

pub open spec fn pes_finish(s: PesView) -> Result<Seq<u8>, MpegTsError> {
    if pes_truncated(s) {
        Err(MpegTsError::TruncatedPes)
    } else {
        Ok(s.output)
    }
}

pub open spec fn opt_usize_view(value: Option<usize>) -> Option<int> {
    match value {
        Some(v) => Some(v as int),
        None => None,
    }
}

/// Strips PES headers from the packets of one elementary stream and collects their payload.
pub struct PesExtractor {
    header: Vec<u8>,
    header_total: Option<usize>,
    header_complete: bool,
    active: bool,
    remaining: Option<usize>,
    output: Vec<u8>,
    limit: usize,
}

impl View for PesExtractor {
    type V = PesView;

    closed spec fn view(&self) -> PesView {
        PesView {
            header: self.header@,
            header_total: opt_usize_view(self.header_total),
            header_complete: self.header_complete,
            active: self.active,
            remaining: opt_usize_view(self.remaining),
            output: self.output@,
            limit: self.limit as int,
        }
    }
}

impl PesExtractor {
    pub closed spec fn wf(&self) -> bool {
        pes_wf(self@)
    }

    pub fn new(limit: usize) -> (result: Self)
        ensures
            result@ == pes_new(limit as int),
            result.wf(),
    {
        PesExtractor {
            header: Vec::new(),
            header_total: None,
            header_complete: false,
            active: false,
            remaining: None,
            output: Vec::new(),
            limit,
        }
    }

    #[verifier::rlimit(40)]
    fn header_step(&mut self, payload: &[u8], pos: usize) -> (result: Result<usize, MpegTsError>)
        requires
            old(self).wf(),
            !old(self)@.header_complete,
            pos < payload@.len(),
        ensures
            match pes_header_step(old(self)@, payload@.skip(pos as int)) {
                Ok((s, rest)) => result matches Ok(next) && final(self)@ == s && final(self).wf()
                    && pos < next <= payload@.len() && rest == payload@.skip(next as int),
                Err(e) => result == Err::<usize, MpegTsError>(e),
            },
    {
        let ghost s0 = self@;
        let ghost tail = payload@.skip(pos as int);
        proof {
            reveal(pes_header_step);
        }
        let target = match self.header_total {
            Some(t) => t,
            None => 9,
        };
        let needed = target - self.header.len();
        let avail = payload.len() - pos;
        let take = if needed < avail {
            needed
        } else {
            avail
        };
        self.header.extend_from_slice(&payload[pos..pos + take]);
        let next = pos + take;
        proof {
            assert(self.header@ =~= s0.header + tail.take(take as int));
            assert(payload@.skip(next as int) =~= tail.skip(take as int));
        }
        if self.header.len() >= 6 && !(self.header[0] == 0 && self.header[1] == 0
            && self.header[2] == 1) {
            return Err(MpegTsError::InvalidPes("start code is missing"));
        }
        if self.header.len() == 9 && self.header_total.is_none() {
            if self.header[6] & 0xc0 != 0x80 {
                return Err(MpegTsError::InvalidPes("MPEG-2 optional-header marker is invalid"));
            }
            self.header_total = Some(9 + self.header[8] as usize);
        }
        match self.header_total {
            Some(t) => {
                if t == self.header.len() {
                    let packet_length = self.header[4] as usize * 256 + self.header[5] as usize;
                    let optional = self.header[8] as usize;
                    if packet_length == 0 {
                        self.remaining = None;
                    } else {
                        if packet_length < 3 + optional {
                            return Err(
                                MpegTsError::InvalidPes(
                                    "declared length is shorter than its header",
                                ),
                            );
                        }
                        self.remaining = Some(packet_length - 3 - optional);
                    }
                    self.header_complete = true;
                    self.header.clear();
                }
            },
            None => {},
        }
        Ok(next)
    }

    fn append_payload(&mut self, payload: &[u8]) -> (result: Result<(), MpegTsError>)
        requires
            old(self).wf(),
            old(self)@.header_complete,
        ensures
            match pes_append(old(self)@, payload@) {
                Ok(s) => result is Ok && final(self)@ == s && final(self).wf(),
                Err(e) => result == Err::<(), MpegTsError>(e),
            },
    {
        let ghost s0 = self@;
        let length = match self.remaining {
            None => payload.len(),
            Some(left) => if left < payload.len() {
                left
            } else {
                payload.len()
            },
        };
        let actual = match self.output.len().checked_add(length) {
            Some(a) => a,
            None => {
                return Err(MpegTsError::PesPayloadTooLarge { actual: usize::MAX, limit: self.limit });
            },
        };
        if actual > self.limit {
            return Err(MpegTsError::PesPayloadTooLarge { actual, limit: self.limit });
        }
        self.output.extend_from_slice(&payload[0..length]);
        match self.remaining {
            Some(left) => {
                self.remaining = Some(left - length);
            },
            None => {},
        }
        proof {
            assert(self.output@ =~= s0.output + payload@.take(length as int));
        }
        Ok(())
    }

    pub fn finish_current(&self) -> (result: Result<(), MpegTsError>)
        ensures
            result is Err <==> pes_truncated(self@),
            result is Err ==> result == Err::<(), MpegTsError>(MpegTsError::TruncatedPes),
    {
        let open_remaining = match self.remaining {
            Some(left) => left != 0,
            None => false,
        };
        if self.active && (!self.header_complete || open_remaining) {
            return Err(MpegTsError::TruncatedPes);
        }
        Ok(())
    }

    pub fn push(&mut self, payload: &[u8], unit_start: bool) -> (result: Result<(), MpegTsError>)
        requires
            old(self).wf(),
        ensures
            match pes_push(old(self)@, payload@, unit_start) {
                Ok(s) => result is Ok && final(self)@ == s && final(self).wf(),
                Err(e) => result == Err::<(), MpegTsError>(e),
            },
    {
        let ghost s0 = self@;
        if unit_start {
            self.finish_current()?;
            self.active = true;
            self.header.clear();
            self.header_total = None;
            self.header_complete = false;
            self.remaining = None;
        } else if !self.active {
            return Ok(());
        }
        let ghost s1 = self@;
        let mut pos: usize = 0;
        proof {
            assert(payload@.skip(0) =~= payload@);
        }
        while !self.header_complete && pos < payload.len()
            invariant
                self.wf(),
                pos <= payload@.len(),
                s0 == old(self)@,
                pes_push(s0, payload@, unit_start) == pes_after_start(s1, payload@),
                pes_header_loop(s1, payload@) == pes_header_loop(self@, payload@.skip(pos as int)),
            decreases payload@.len() - pos,
        {
            let ghost cur = self@;
            let ghost tail = payload@.skip(pos as int);
            match self.header_step(payload, pos) {
                Ok(next) => {
                    pos = next;
                },
                Err(e) => {
                    proof {
                        assert(pes_header_loop(cur, tail) == Err::<(PesView, Seq<u8>), MpegTsError>(e));
                    }
                    return Err(e);
                },
            }
        }
        if self.header_complete {
            self.append_payload(&payload[pos..payload.len()])?;
            proof {
                assert(payload@.subrange(pos as int, payload@.len() as int) =~= payload@.skip(pos as int));
            }
        }
        Ok(())
    }

    pub fn finish(self) -> (result: Result<Vec<u8>, MpegTsError>)
        ensures
            match pes_finish(self@) {
                Ok(out) => result is Ok && result->Ok_0@ == out,
                Err(e) => result == Err::<Vec<u8>, MpegTsError>(e),
            },
    {
        self.finish_current()?;
        Ok(self.output)
    }
}

} // verus!

verus! {

// ---------------------------------------------------------------------------------------------
// Demultiplexing a whole segment
// ---------------------------------------------------------------------------------------------

/// The abstract state of the demultiplexer between two packets.
pub struct DemuxView {
    pub pat: PsiView,
    pub pmt: PsiView,
    pub sdt: PsiView,
    pub pmt_pid: Option<u16>,
    pub audio_pid: Option<u16>,
    pub continuity: Seq<Option<u8>>,
    pub metadata: MetadataView,
    pub pes: PesView,
}

pub open spec fn demux_init(limits: MpegTsLimits) -> DemuxView {
    DemuxView {
        pat: psi_empty(),
        pmt: psi_empty(),
        sdt: psi_empty(),
        pmt_pid: None,
        audio_pid: None,
        continuity: Seq::new(PID_COUNT as nat, |i: int| None),
        metadata: MetadataView { provider: None, name: None },
        pes: pes_new(limits.max_pes_payload_bytes as int),
    }
}

/// Applies completed PAT sections in order; a newly selected program map resets the PMT
/// assembler, the audio selection and the PES extractor.
pub open spec fn pat_sections(d: DemuxView, sections: Seq<Seq<u8>>, limits: MpegTsLimits) -> Result<
    DemuxView,
    MpegTsError,
>
    decreases sections.len(),
{
    if sections.len() == 0 {
        Ok(d)
    } else {
        match spec_parse_pat(sections[0]) {
            Err(e) => Err(e),
            Ok(selected) => pat_sections(
                if selected is Some && d.pmt_pid != selected {
                    DemuxView {
                        pmt_pid: selected,
                        audio_pid: None,
                        pmt: psi_empty(),
                        pes: pes_new(limits.max_pes_payload_bytes as int),
                        ..d
                    }
                } else {
                    d
                },
                sections.skip(1),
                limits,
            ),
        }
    }
}

/// Applies completed PMT sections in order; a changed audio selection resets the PES extractor.
pub open spec fn pmt_sections(d: DemuxView, sections: Seq<Seq<u8>>, limits: MpegTsLimits) -> Result<
    DemuxView,
    MpegTsError,
>
    decreases sections.len(),
{
    if sections.len() == 0 {
        Ok(d)
    } else {
        match spec_parse_pmt(sections[0]) {
            Err(e) => Err(e),
            Ok(selected) => pmt_sections(
                if d.audio_pid != selected {
                    DemuxView {
                        audio_pid: selected,
                        pes: pes_new(limits.max_pes_payload_bytes as int),
                        ..d
                    }
                } else {
                    d
                },
                sections.skip(1),
                limits,
            ),
        }
    }
}

/// Applies completed SDT sections in order to the service metadata.
pub open spec fn sdt_sections(d: DemuxView, sections: Seq<Seq<u8>>, limits: MpegTsLimits) -> Result<
    DemuxView,
    MpegTsError,
>
    decreases sections.len(),
{
    if sections.len() == 0 {
        Ok(d)
    } else {
        match spec_parse_sdt(sections[0], limits.max_metadata_string_bytes as int, d.metadata) {
            Err(e) => Err(e),
            Ok(m) => sdt_sections(DemuxView { metadata: m, ..d }, sections.skip(1), limits),
        }
    }
}

/// Routes one packet by PID after the continuity check of the PIDs that matter.
pub open spec fn demux_packet(d: DemuxView, raw: Seq<u8>, index: usize, limits: MpegTsLimits) -> Result<
    DemuxView,
    MpegTsError,
> {
    match spec_parse_packet(raw, index) {
        Err(e) => Err(e),
        Ok(v) => {
            let payload = raw.subrange(v.payload_start, 188);
            let relevant = v.pid == PAT_PID || v.pid == SDT_PID || Some(v.pid) == d.pmt_pid
                || Some(v.pid) == d.audio_pid;
            let table = if relevant && payload.len() > 0 {
                spec_continuity(d.continuity, v.pid, v.continuity, v.discontinuity)
            } else {
                Ok(d.continuity)
            };
            match table {
                Err(e) => Err(e),
                Ok(t) => {
                    let d1 = DemuxView { continuity: t, ..d };
                    if v.pid == PAT_PID {
                        match psi_push(d1.pat, payload, v.unit_start, limits.max_psi_section_bytes as int) {
                            Err(e) => Err(e),
                            Ok((p, sections)) => pat_sections(DemuxView { pat: p, ..d1 }, sections, limits),
                        }
                    } else if v.pid == SDT_PID {
                        match psi_push(d1.sdt, payload, v.unit_start, limits.max_psi_section_bytes as int) {
                            Err(e) => Err(e),
                            Ok((p, sections)) => sdt_sections(DemuxView { sdt: p, ..d1 }, sections, limits),
                        }
                    } else if Some(v.pid) == d1.pmt_pid {
                        match psi_push(d1.pmt, payload, v.unit_start, limits.max_psi_section_bytes as int) {
                            Err(e) => Err(e),
                            Ok((p, sections)) => pmt_sections(DemuxView { pmt: p, ..d1 }, sections, limits),
                        }
                    } else if Some(v.pid) == d1.audio_pid {
                        match pes_push(d1.pes, payload, v.unit_start) {
                            Err(e) => Err(e),
                            Ok(p) => Ok(DemuxView { pes: p, ..d1 }),
                        }
                    } else {
                        Ok(d1)
                    }
                },
            }
        },
    }
}

/// Runs packets `i .. n` of a segment through the demultiplexer.
pub open spec fn demux_from(d: DemuxView, bytes: Seq<u8>, i: int, n: int, limits: MpegTsLimits) -> Result<
    DemuxView,
    MpegTsError,
>
    decreases n - i,
{
    if i >= n {
        Ok(d)
    } else {
        match demux_packet(d, bytes.subrange(188 * i, 188 * i + 188), i as usize, limits) {
            Err(e) => Err(e),
            Ok(d2) => demux_from(d2, bytes, i + 1, n, limits),
        }
    }
}

/// The `i`-th packet of a stream.
pub open spec fn ts_packet(bytes: Seq<u8>, i: int) -> Seq<u8> {
    bytes.subrange(188 * i, 188 * i + 188)
}

/// No well-formed packet among packets `i` to `n` carries the program association table.
pub open spec fn no_pat_from(bytes: Seq<u8>, i: int, n: int) -> bool {
    forall|j: int|
        i <= j < n ==> (#[trigger] spec_parse_packet(ts_packet(bytes, j), j as usize) matches Ok(v)
            ==> v.pid != PAT_PID)
}

/// Every packet among packets `i` to `n` is well formed and carries neither the program
/// association table nor the service description.
pub open spec fn only_other_pids_from(bytes: Seq<u8>, i: int, n: int) -> bool {
    forall|j: int|
        i <= j < n ==> (#[trigger] spec_parse_packet(ts_packet(bytes, j), j as usize) matches Ok(v)
            && v.pid != PAT_PID && v.pid != SDT_PID)
}

proof fn lemma_sdt_keeps_pids(d: DemuxView, sections: Seq<Seq<u8>>, limits: MpegTsLimits)
    ensures
        sdt_sections(d, sections, limits) matches Ok(d2) ==> d2.pmt_pid == d.pmt_pid
            && d2.audio_pid == d.audio_pid,
    decreases sections.len(),
{
    if sections.len() > 0 {
        match spec_parse_sdt(sections[0], limits.max_metadata_string_bytes as int, d.metadata) {
            Err(_) => {},
            Ok(m) => lemma_sdt_keeps_pids(DemuxView { metadata: m, ..d }, sections.skip(1), limits),
        }
    }
}

proof fn lemma_demux_without_pat(d: DemuxView, bytes: Seq<u8>, i: int, n: int, limits: MpegTsLimits)
    requires
        d.pmt_pid is None,
        d.audio_pid is None,
        no_pat_from(bytes, i, n),
    ensures
        demux_from(d, bytes, i, n, limits) matches Ok(d2) ==> d2.pmt_pid is None,
        only_other_pids_from(bytes, i, n) ==> (demux_from(d, bytes, i, n, limits) matches Ok(d2)
            && d2.pat == d.pat && d2.pmt == d.pmt && d2.sdt == d.sdt && d2.pmt_pid is None),
    decreases n - i,
{
    if i < n {
        let raw = ts_packet(bytes, i);
        assert(raw == bytes.subrange(188 * i, 188 * i + 188));
        let r = spec_parse_packet(raw, i as usize);
        match r {
            Err(_) => {},
            Ok(v) => {
                assert(v.pid != PAT_PID);
                let payload = raw.subrange(v.payload_start, 188);
                match demux_packet(d, raw, i as usize, limits) {
                    Err(_) => {},
                    Ok(d2) => {
                        if v.pid == SDT_PID {
                            let relevant = true;
                            let t = if payload.len() > 0 {
                                spec_continuity(d.continuity, v.pid, v.continuity, v.discontinuity)
                            } else {
                                Ok(d.continuity)
                            };
                            match t {
                                Err(_) => {},
                                Ok(t) => {
                                    let d1 = DemuxView { continuity: t, ..d };
                                    match psi_push(d1.sdt, payload, v.unit_start, limits.max_psi_section_bytes as int) {
                                        Err(_) => {},
                                        Ok((p, sections)) => {
                                            lemma_sdt_keeps_pids(DemuxView { sdt: p, ..d1 }, sections, limits);
                                        },
                                    }
                                },
                            }
                        }
                        assert(d2.pmt_pid is None && d2.audio_pid is None);
                        assert(no_pat_from(bytes, i + 1, n));
                        lemma_demux_without_pat(d2, bytes, i + 1, n, limits);
                        if only_other_pids_from(bytes, i, n) {
                            assert(only_other_pids_from(bytes, i + 1, n));
                            assert(d2.pat == d.pat && d2.pmt == d.pmt && d2.sdt == d.sdt);
                        }
                    },
                }
            },
        }
    }
}

proof fn lemma_pes_header_loop_keeps_output(s: PesView, payload: Seq<u8>)
    requires
        s.remaining matches Some(r) ==> r >= 0,
    ensures
        pes_header_loop(s, payload) matches Ok((s2, rest)) ==> s2.output == s.output && s2.limit
            == s.limit && rest.len() <= payload.len() && (s2.remaining matches Some(r) ==> r >= 0),
    decreases payload.len(),
{
    reveal(pes_header_step);
    if !(s.header_complete || payload.len() == 0) {
        match pes_header_step(s, payload) {
            Err(_) => {},
            Ok((s2, rest)) => {
                if rest.len() < payload.len() {
                    lemma_pes_header_loop_keeps_output(s2, rest);
                }
            },
        }
    }
}

/// Feeding a payload adds at most its own length to the output, which stays within the limit.
proof fn lemma_pes_push_growth(s: PesView, payload: Seq<u8>, unit_start: bool)
    requires
        s.output.len() <= s.limit,
        s.remaining matches Some(r) ==> r >= 0,
    ensures
        pes_push(s, payload, unit_start) matches Ok(s2) ==> s2.limit == s.limit
            && s2.output.len() <= s.output.len() + payload.len() && s2.output.len() <= s2.limit
            && (s2.remaining matches Some(r) ==> r >= 0),
{
    let s0 = if unit_start {
        PesView {
            active: true,
            header: Seq::empty(),
            header_total: None,
            header_complete: false,
            remaining: None,
            ..s
        }
    } else {
        s
    };
    lemma_pes_header_loop_keeps_output(s0, payload);
    if !(unit_start && pes_truncated(s)) && (unit_start || s.active) {
        match pes_header_loop(s0, payload) {
            Err(_) => {},
            Ok((s2, rest)) => {
                if s2.header_complete {
                    let length = match s2.remaining {
                        None => rest.len() as int,
                        Some(r) => min_int(r, rest.len() as int),
                    };
                    assert(0 <= length <= rest.len());
                    assert(rest.take(length).len() == length);
                }
            },
        }
    }
}

proof fn lemma_section_pes(d: DemuxView, sections: Seq<Seq<u8>>, limits: MpegTsLimits, kind: int)
    requires
        0 <= kind <= 2,
    ensures
        kind == 0 ==> (pat_sections(d, sections, limits) matches Ok(d2) ==> (d2.pes == d.pes || d2.pes
            == pes_new(limits.max_pes_payload_bytes as int))),
        kind == 1 ==> (pmt_sections(d, sections, limits) matches Ok(d2) ==> (d2.pes == d.pes || d2.pes
            == pes_new(limits.max_pes_payload_bytes as int))),
        kind == 2 ==> (sdt_sections(d, sections, limits) matches Ok(d2) ==> d2.pes == d.pes),
    decreases sections.len(),
{
    if sections.len() > 0 {
        if kind == 0 {
            match spec_parse_pat(sections[0]) {
                Err(_) => {},
                Ok(selected) => {
                    let next = if selected is Some && d.pmt_pid != selected {
                        DemuxView {
                            pmt_pid: selected,
                            audio_pid: None,
                            pmt: psi_empty(),
                            pes: pes_new(limits.max_pes_payload_bytes as int),
                            ..d
                        }
                    } else {
                        d
                    };
                    lemma_section_pes(next, sections.skip(1), limits, 0);
                },
            }
        } else if kind == 1 {
            match spec_parse_pmt(sections[0]) {
                Err(_) => {},
                Ok(selected) => {
                    let next = if d.audio_pid != selected {
                        DemuxView {
                            audio_pid: selected,
                            pes: pes_new(limits.max_pes_payload_bytes as int),
                            ..d
                        }
                    } else {
                        d
                    };
                    lemma_section_pes(next, sections.skip(1), limits, 1);
                },
            }
        } else {
            match spec_parse_sdt(sections[0], limits.max_metadata_string_bytes as int, d.metadata) {
                Err(_) => {},
                Ok(m) => lemma_section_pes(DemuxView { metadata: m, ..d }, sections.skip(1), limits, 2),
            }
        }
    }
}

/// Packet payloads hold at most 184 bytes, so after packets `i` to `n` the collected output grew
/// by at most 184 bytes per packet and stays within the PES bound.
proof fn lemma_demux_output(d: DemuxView, bytes: Seq<u8>, i: int, n: int, limits: MpegTsLimits)
    requires
        0 <= i <= n,
        188 * n <= bytes.len(),
        d.pes.limit == limits.max_pes_payload_bytes,
        d.pes.output.len() <= d.pes.limit,
        d.pes.remaining matches Some(r) ==> r >= 0,
    ensures
        demux_from(d, bytes, i, n, limits) matches Ok(d2) ==> d2.pes.limit == d.pes.limit
            && d2.pes.output.len() <= d2.pes.limit && d2.pes.output.len() <= d.pes.output.len() + 184
            * (n - i),
    decreases n - i,
{
    if i < n {
        let raw = bytes.subrange(188 * i, 188 * i + 188);
        match spec_parse_packet(raw, i as usize) {
            Err(_) => {},
            Ok(v) => {
                let payload = raw.subrange(v.payload_start, 188);
                assert(raw.len() == 188);
                assert(4 <= v.payload_start <= 188);
                assert(payload.len() <= 184);
                let relevant = v.pid == PAT_PID || v.pid == SDT_PID || Some(v.pid) == d.pmt_pid
                    || Some(v.pid) == d.audio_pid;
                let table = if relevant && payload.len() > 0 {
                    spec_continuity(d.continuity, v.pid, v.continuity, v.discontinuity)
                } else {
                    Ok(d.continuity)
                };
                match table {
                    Err(_) => {},
                    Ok(t) => {
                        let d1 = DemuxView { continuity: t, ..d };
                        let lim = limits.max_psi_section_bytes as int;
                        if v.pid == PAT_PID {
                            match psi_push(d1.pat, payload, v.unit_start, lim) {
                                Err(_) => {},
                                Ok((p, sections)) => lemma_section_pes(DemuxView { pat: p, ..d1 }, sections, limits, 0),
                            }
                        } else if v.pid == SDT_PID {
                            match psi_push(d1.sdt, payload, v.unit_start, lim) {
                                Err(_) => {},
                                Ok((p, sections)) => lemma_section_pes(DemuxView { sdt: p, ..d1 }, sections, limits, 2),
                            }
                        } else if Some(v.pid) == d1.pmt_pid {
                            match psi_push(d1.pmt, payload, v.unit_start, lim) {
                                Err(_) => {},
                                Ok((p, sections)) => lemma_section_pes(DemuxView { pmt: p, ..d1 }, sections, limits, 1),
                            }
                        } else if Some(v.pid) == d1.audio_pid {
                            lemma_pes_push_growth(d1.pes, payload, v.unit_start);
                        }
                        match demux_packet(d, raw, i as usize, limits) {
                            Err(_) => {},
                            Ok(d2) => {
                                assert(d2.pes.limit == d.pes.limit);
                                assert(d2.pes.output.len() <= d.pes.output.len() + 184);
                                assert(d2.pes.remaining matches Some(r) ==> r >= 0);
                                lemma_demux_output(d2, bytes, i + 1, n, limits);
                            },
                        }
                    },
                }
            },
        }
    }
}

/// A retained service string is non-empty, within the limit, and made of ASCII characters and
/// replacement characters only.
pub open spec fn service_text_ok(text: Option<Seq<char>>, limit: int) -> bool {
    text matches Some(t) ==> t.len() > 0 && t.len() <= limit && forall|i: int|
        0 <= i < t.len() ==> ((#[trigger] t[i]) as int) < 128 || t[i] == '\u{FFFD}'
}

pub open spec fn metadata_ok(m: MetadataView, limit: int) -> bool {
    service_text_ok(m.provider, limit) && service_text_ok(m.name, limit)
}

proof fn lemma_ascii_text_ok(bytes: Seq<u8>, limit: int)
    requires
        bytes.len() <= limit,
    ensures
        service_text_ok(ascii_text(bytes), limit),
{
    if bytes.len() > 0 {
        let t = ascii_text(bytes)->0;
        assert forall|i: int| 0 <= i < t.len() implies ((#[trigger] t[i]) as int) < 128 || t[i]
            == '\u{FFFD}' by {
            if bytes[i] < 128 {
                assert(t[i] == bytes[i] as char);
            }
        }
    }
}

proof fn lemma_descriptors_ok(section: Seq<u8>, position: int, end: int, limit: int, m: MetadataView)
    requires
        metadata_ok(m, limit),
        0 <= position,
        end <= section.len(),
    ensures
        sdt_descriptors(section, position, end, limit, m) matches Ok(m2) ==> metadata_ok(m2, limit),
    decreases end - position,
{
    if position < end && end - position >= 2 {
        let data_end = position + 2 + section[position + 1] as int;
        if data_end <= end {
            if section[position] == 0x48 {
                let data = section.subrange(position + 2, data_end);
                if data.len() >= 3 && data.len() > 2 + data[1] as int {
                    let provider_end = 2 + data[1] as int;
                    let service_end = provider_end + 1 + data[provider_end] as int;
                    if service_end <= data.len() && data[1] as int <= limit && data[provider_end]
                        as int <= limit {
                        lemma_ascii_text_ok(data.subrange(2, provider_end), limit);
                        lemma_ascii_text_ok(data.subrange(provider_end + 1, service_end), limit);
                    }
                }
                match spec_service_descriptor(data, limit) {
                    Ok(m2) => lemma_descriptors_ok(section, data_end, end, limit, m2),
                    Err(_) => {},
                }
            } else {
                lemma_descriptors_ok(section, data_end, end, limit, m);
            }
        }
    }
}

proof fn lemma_services_ok(section: Seq<u8>, position: int, end: int, limit: int, m: MetadataView)
    requires
        metadata_ok(m, limit),
        0 <= position,
        end <= section.len(),
    ensures
        sdt_services(section, position, end, limit, m) matches Ok(m2) ==> metadata_ok(m2, limit),
    decreases end - position,
{
    if position < end && end - position >= 5 {
        let descriptor_start = position + 5;
        let descriptor_end = descriptor_start + low12(section[position + 3], section[position + 4]);
        if descriptor_end <= usize::MAX && descriptor_end <= end {
            lemma_descriptors_ok(section, descriptor_start, descriptor_end, limit, m);
            match sdt_descriptors(section, descriptor_start, descriptor_end, limit, m) {
                Ok(m2) => lemma_services_ok(section, descriptor_end, end, limit, m2),
                Err(_) => {},
            }
        }
    }
}

proof fn lemma_sdt_sections_ok(d: DemuxView, sections: Seq<Seq<u8>>, limits: MpegTsLimits)
    requires
        metadata_ok(d.metadata, limits.max_metadata_string_bytes as int),
    ensures
        sdt_sections(d, sections, limits) matches Ok(d2) ==> metadata_ok(
            d2.metadata,
            limits.max_metadata_string_bytes as int,
        ),
    decreases sections.len(),
{
    if sections.len() > 0 {
        let section = sections[0];
        let limit = limits.max_metadata_string_bytes as int;
        if (section[0] == 0x42 || section[0] == 0x46) && section.len() >= 15 {
            lemma_services_ok(section, 11, section.len() - 4, limit, d.metadata);
        }
        match spec_parse_sdt(section, limit, d.metadata) {
            Err(_) => {},
            Ok(m) => lemma_sdt_sections_ok(DemuxView { metadata: m, ..d }, sections.skip(1), limits),
        }
    }
}

proof fn lemma_section_metadata(d: DemuxView, sections: Seq<Seq<u8>>, limits: MpegTsLimits, kind: int)
    requires
        0 <= kind <= 1,
    ensures
        kind == 0 ==> (pat_sections(d, sections, limits) matches Ok(d2) ==> d2.metadata == d.metadata),
        kind == 1 ==> (pmt_sections(d, sections, limits) matches Ok(d2) ==> d2.metadata == d.metadata),
    decreases sections.len(),
{
    if sections.len() > 0 {
        if kind == 0 {
            match spec_parse_pat(sections[0]) {
                Err(_) => {},
                Ok(selected) => {
                    let next = if selected is Some && d.pmt_pid != selected {
                        DemuxView {
                            pmt_pid: selected,
                            audio_pid: None,
                            pmt: psi_empty(),
                            pes: pes_new(limits.max_pes_payload_bytes as int),
                            ..d
                        }
                    } else {
                        d
                    };
                    lemma_section_metadata(next, sections.skip(1), limits, 0);
                },
            }
        } else {
            match spec_parse_pmt(sections[0]) {
                Err(_) => {},
                Ok(selected) => {
                    let next = if d.audio_pid != selected {
                        DemuxView {
                            audio_pid: selected,
                            pes: pes_new(limits.max_pes_payload_bytes as int),
                            ..d
                        }
                    } else {
                        d
                    };
                    lemma_section_metadata(next, sections.skip(1), limits, 1);
                },
            }
        }
    }
}

/// No well-formed packet among packets `i` to `n` carries the service description.
pub open spec fn no_sdt_from(bytes: Seq<u8>, i: int, n: int) -> bool {
    forall|j: int|
        i <= j < n ==> (#[trigger] spec_parse_packet(ts_packet(bytes, j), j as usize) matches Ok(v)
            ==> v.pid != SDT_PID)
}

proof fn lemma_demux_metadata(d: DemuxView, bytes: Seq<u8>, i: int, n: int, limits: MpegTsLimits)
    requires
        metadata_ok(d.metadata, limits.max_metadata_string_bytes as int),
    ensures
        demux_from(d, bytes, i, n, limits) matches Ok(d2) ==> metadata_ok(
            d2.metadata,
            limits.max_metadata_string_bytes as int,
        ),
        no_sdt_from(bytes, i, n) ==> (demux_from(d, bytes, i, n, limits) matches Ok(d2)
            ==> d2.metadata == d.metadata),
    decreases n - i,
{
    if i < n {
        let raw = bytes.subrange(188 * i, 188 * i + 188);
        assert(raw == ts_packet(bytes, i));
        match spec_parse_packet(raw, i as usize) {
            Err(_) => {},
            Ok(v) => {
                let payload = raw.subrange(v.payload_start, 188);
                let relevant = v.pid == PAT_PID || v.pid == SDT_PID || Some(v.pid) == d.pmt_pid
                    || Some(v.pid) == d.audio_pid;
                let table = if relevant && payload.len() > 0 {
                    spec_continuity(d.continuity, v.pid, v.continuity, v.discontinuity)
                } else {
                    Ok(d.continuity)
                };
                match table {
                    Err(_) => {},
                    Ok(t) => {
                        let d1 = DemuxView { continuity: t, ..d };
                        let lim = limits.max_psi_section_bytes as int;
                        if v.pid == PAT_PID {
                            match psi_push(d1.pat, payload, v.unit_start, lim) {
                                Err(_) => {},
                                Ok((p, sections)) => lemma_section_metadata(DemuxView { pat: p, ..d1 }, sections, limits, 0),
                            }
                        } else if v.pid == SDT_PID {
                            match psi_push(d1.sdt, payload, v.unit_start, lim) {
                                Err(_) => {},
                                Ok((p, sections)) => lemma_sdt_sections_ok(DemuxView { sdt: p, ..d1 }, sections, limits),
                            }
                        } else if Some(v.pid) == d1.pmt_pid {
                            match psi_push(d1.pmt, payload, v.unit_start, lim) {
                                Err(_) => {},
                                Ok((p, sections)) => lemma_section_metadata(DemuxView { pmt: p, ..d1 }, sections, limits, 1),
                            }
                        }
                        match demux_packet(d, raw, i as usize, limits) {
                            Err(_) => {},
                            Ok(d2) => {
                                assert(metadata_ok(d2.metadata, limits.max_metadata_string_bytes as int));
                                assert(no_sdt_from(bytes, i, n) ==> d2.metadata == d.metadata);
                                if no_sdt_from(bytes, i, n) {
                                    assert(no_sdt_from(bytes, i + 1, n));
                                }
                                lemma_demux_metadata(d2, bytes, i + 1, n, limits);
                            },
                        }
                    },
                }
            },
        }
    }
}

/// The service metadata of an extracted stream is bounded: each string is non-empty, within the
/// metadata limit, and ASCII apart from replacement characters; without a service description
/// there is none.
pub proof fn law_service_metadata_is_bounded(bytes: Seq<u8>, limits: MpegTsLimits)
    ensures
        spec_extract(bytes, limits) matches Ok((_, m)) ==> metadata_ok(
            m,
            limits.max_metadata_string_bytes as int,
        ),
        no_sdt_from(bytes, 0, (bytes.len() / 188) as int) ==> (spec_extract(bytes, limits) matches Ok(
            (_, m),
        ) ==> m == (MetadataView { provider: None, name: None })),
{
    lemma_demux_metadata(demux_init(limits), bytes, 0, (bytes.len() / 188) as int, limits);
}

/// An extracted ADTS stream is non-empty, within the PES payload bound, and shorter than the
/// transport stream it came from.
pub proof fn law_extracted_stream_is_bounded(bytes: Seq<u8>, limits: MpegTsLimits)
    ensures
        spec_extract(bytes, limits) matches Ok((out, _)) ==> out.len() > 0 && out.len()
            <= limits.max_pes_payload_bytes && out.len() < bytes.len(),
{
    if limits.spec_validate() is Ok && bytes.len() % 188 == 0 && bytes.len() / 188
        <= limits.max_packets {
        let n = (bytes.len() / 188) as int;
        lemma_demux_output(demux_init(limits), bytes, 0, n, limits);
        assert(188 * n == bytes.len());
    }
}

/// Input without a program association table is never accepted: no elementary stream is
/// guessed. When moreover every packet is well formed and none describes the service, the
/// failure is the missing program map; an empty input is such a case.
pub proof fn law_no_pat_is_never_accepted(bytes: Seq<u8>, limits: MpegTsLimits)
    requires
        no_pat_from(bytes, 0, (bytes.len() / 188) as int),
    ensures
        spec_extract(bytes, limits) is Err,
        limits.spec_validate() is Ok && bytes.len() % 188 == 0 && bytes.len() / 188
            <= limits.max_packets && only_other_pids_from(bytes, 0, (bytes.len() / 188) as int)
            ==> spec_extract(bytes, limits) == Err::<(Seq<u8>, MetadataView), MpegTsError>(
            MpegTsError::MissingProgramMap,
        ),
        limits.spec_validate() is Ok && bytes.len() == 0 ==> spec_extract(bytes, limits) == Err::<
            (Seq<u8>, MetadataView),
            MpegTsError,
        >(MpegTsError::MissingProgramMap),
{
    lemma_demux_without_pat(demux_init(limits), bytes, 0, (bytes.len() / 188) as int, limits);
}

/// What [`extract_mpeg_ts_adts`] returns: the ADTS payload and the service metadata, or the
/// first error met.
pub open spec fn spec_extract(bytes: Seq<u8>, limits: MpegTsLimits) -> Result<
    (Seq<u8>, MetadataView),
    MpegTsError,
> {
    match limits.spec_validate() {
        Err(e) => Err(e),
        Ok(_) => if bytes.len() % 188 != 0 {
            Err(MpegTsError::TruncatedPacket { trailing_bytes: (bytes.len() % 188) as usize })
        } else if bytes.len() / 188 > limits.max_packets {
            Err(
                MpegTsError::TooManyPackets {
                    actual: (bytes.len() / 188) as usize,
                    limit: limits.max_packets,
                },
            )
        } else {
            match demux_from(demux_init(limits), bytes, 0, (bytes.len() / 188) as int, limits) {
                Err(e) => Err(e),
                Ok(d) => if d.pat.buffer.len() != 0 || d.pmt.buffer.len() != 0
                    || d.sdt.buffer.len() != 0 {
                    Err(MpegTsError::TruncatedPsi)
                } else if d.pmt_pid is None {
                    Err(MpegTsError::MissingProgramMap)
                } else if d.audio_pid is None {
                    Err(MpegTsError::MissingAdtsStream)
                } else {
                    match pes_finish(d.pes) {
                        Err(e) => Err(e),
                        Ok(out) => if out.len() == 0 {
                            Err(MpegTsError::MissingAdtsPayload)
                        } else {
                            Ok((out, d.metadata))
                        },
                    }
                },
            }
        },
    }
}

struct Demuxer {
    pat: PsiAssembler,
    pmt: PsiAssembler,
    sdt: PsiAssembler,
    pmt_pid: Option<u16>,
    audio_pid: Option<u16>,
    continuity: Vec<Option<u8>>,
    metadata: MpegTsMetadata,
    pes: PesExtractor,
}

impl View for Demuxer {
    type V = DemuxView;

    closed spec fn view(&self) -> DemuxView {
        DemuxView {
            pat: self.pat@,
            pmt: self.pmt@,
            sdt: self.sdt@,
            pmt_pid: self.pmt_pid,
            audio_pid: self.audio_pid,
            continuity: self.continuity@,
            metadata: self.metadata@,
            pes: self.pes@,
        }
    }
}

impl Demuxer {
    closed spec fn wf(&self) -> bool {
        &&& self.pat.wf()
        &&& self.pmt.wf()
        &&& self.sdt.wf()
        &&& self.pes.wf()
        &&& self.continuity@.len() == PID_COUNT
    }

    fn new(limits: MpegTsLimits) -> (result: Self)
        ensures
            result@ == demux_init(limits),
            result.wf(),
    {
        let mut continuity: Vec<Option<u8>> = Vec::new();
        let mut i: usize = 0;
        while i < PID_COUNT
            invariant
                i <= PID_COUNT,
                continuity@.len() == i,
                forall|j: int| 0 <= j < i ==> continuity@[j] == None::<u8>,
            decreases PID_COUNT - i,
        {
            continuity.push(None);
            i = i + 1;
        }
        let result = Demuxer {
            pat: PsiAssembler::new(),
            pmt: PsiAssembler::new(),
            sdt: PsiAssembler::new(),
            pmt_pid: None,
            audio_pid: None,
            continuity,
            metadata: MpegTsMetadata { service_provider: None, service_name: None },
            pes: PesExtractor::new(limits.max_pes_payload_bytes),
        };
        proof {
            assert(result@.continuity =~= demux_init(limits).continuity);
            assert(result@.metadata == demux_init(limits).metadata);
        }
        result
    }

    fn apply_pat(&mut self, sections: &Vec<Vec<u8>>, limits: MpegTsLimits) -> (result: Result<
        (),
        MpegTsError,
    >)
        requires
            old(self).wf(),
            sections_min3(sections_view(sections@)),
        ensures
            match pat_sections(old(self)@, sections_view(sections@), limits) {
                Ok(d) => result is Ok && final(self)@ == d && final(self).wf(),
                Err(e) => result == Err::<(), MpegTsError>(e),
            },
    {
        let ghost all = sections_view(sections@);
        let mut i: usize = 0;
        proof {
            assert(all.skip(0) =~= all);
        }
        while i < sections.len()
            invariant
                self.wf(),
                i <= sections@.len(),
                all == sections_view(sections@),
                sections_min3(all),
                pat_sections(old(self)@, all, limits) == pat_sections(self@, all.skip(i as int), limits),
            decreases sections@.len() - i,
        {
            proof {
                assert(all.skip(i as int)[0] == all[i as int]);
                assert(all.skip(i as int).skip(1) =~= all.skip(i + 1));
                assert(all[i as int].len() >= 3);
            }
            let selected = parse_pat(sections[i].as_slice())?;
            match selected {
                Some(pid) => {
                    if self.pmt_pid != Some(pid) {
                        self.pmt_pid = Some(pid);
                        self.audio_pid = None;
                        self.pmt = PsiAssembler::new();
                        self.pes = PesExtractor::new(limits.max_pes_payload_bytes);
                    }
                },
                None => {},
            }
            i = i + 1;
        }
        Ok(())
    }

    fn apply_pmt(&mut self, sections: &Vec<Vec<u8>>, limits: MpegTsLimits) -> (result: Result<
        (),
        MpegTsError,
    >)
        requires
            old(self).wf(),
            sections_min3(sections_view(sections@)),
        ensures
            match pmt_sections(old(self)@, sections_view(sections@), limits) {
                Ok(d) => result is Ok && final(self)@ == d && final(self).wf(),
                Err(e) => result == Err::<(), MpegTsError>(e),
            },
    {
        let ghost all = sections_view(sections@);
        let mut i: usize = 0;
        proof {
            assert(all.skip(0) =~= all);
        }
        while i < sections.len()
            invariant
                self.wf(),
                i <= sections@.len(),
                all == sections_view(sections@),
                sections_min3(all),
                pmt_sections(old(self)@, all, limits) == pmt_sections(self@, all.skip(i as int), limits),
            decreases sections@.len() - i,
        {
            proof {
                assert(all.skip(i as int)[0] == all[i as int]);
                assert(all.skip(i as int).skip(1) =~= all.skip(i + 1));
                assert(all[i as int].len() >= 3);
            }
            let selected = parse_pmt(sections[i].as_slice())?;
            if self.audio_pid != selected {
                self.audio_pid = selected;
                self.pes = PesExtractor::new(limits.max_pes_payload_bytes);
            }
            i = i + 1;
        }
        Ok(())
    }

    fn apply_sdt(&mut self, sections: &Vec<Vec<u8>>, limits: MpegTsLimits) -> (result: Result<
        (),
        MpegTsError,
    >)
        requires
            old(self).wf(),
            sections_min3(sections_view(sections@)),
        ensures
            match sdt_sections(old(self)@, sections_view(sections@), limits) {
                Ok(d) => result is Ok && final(self)@ == d && final(self).wf(),
                Err(e) => result == Err::<(), MpegTsError>(e),
            },
    {
        let ghost all = sections_view(sections@);
        let mut i: usize = 0;
        proof {
            assert(all.skip(0) =~= all);
        }
        while i < sections.len()
            invariant
                self.wf(),
                i <= sections@.len(),
                all == sections_view(sections@),
                sections_min3(all),
                sdt_sections(old(self)@, all, limits) == sdt_sections(self@, all.skip(i as int), limits),
            decreases sections@.len() - i,
        {
            proof {
                assert(all.skip(i as int)[0] == all[i as int]);
                assert(all.skip(i as int).skip(1) =~= all.skip(i + 1));
                assert(all[i as int].len() >= 3);
            }
            parse_sdt(sections[i].as_slice(), limits.max_metadata_string_bytes, &mut self.metadata)?;
            i = i + 1;
        }
        Ok(())
    }

    #[verifier::rlimit(60)]
    fn packet(&mut self, raw: &[u8], index: usize, limits: MpegTsLimits) -> (result: Result<
        (),
        MpegTsError,
    >)
        requires
            old(self).wf(),
            raw@.len() == 188,
        ensures
            match demux_packet(old(self)@, raw@, index, limits) {
                Ok(d) => result is Ok && final(self)@ == d && final(self).wf(),
                Err(e) => result == Err::<(), MpegTsError>(e),
            },
    {
        let packet = TransportPacket::parse(raw, index)?;
        let relevant = packet.pid == PAT_PID || packet.pid == SDT_PID || self.pmt_pid == Some(
            packet.pid,
        ) || self.audio_pid == Some(packet.pid);
        if relevant && packet.payload.len() != 0 {
            validate_continuity(
                packet.pid,
                packet.continuity,
                packet.discontinuity,
                &mut self.continuity,
            )?;
        }
        if packet.pid == PAT_PID {
            proof {
                lemma_psi_push_sections(self.pat@, packet.payload@, packet.unit_start, limits.max_psi_section_bytes as int);
            }
            let sections = self.pat.push(packet.payload, packet.unit_start, limits.max_psi_section_bytes)?;
            self.apply_pat(&sections, limits)
        } else if packet.pid == SDT_PID {
            proof {
                lemma_psi_push_sections(self.sdt@, packet.payload@, packet.unit_start, limits.max_psi_section_bytes as int);
            }
            let sections = self.sdt.push(packet.payload, packet.unit_start, limits.max_psi_section_bytes)?;
            self.apply_sdt(&sections, limits)
        } else if self.pmt_pid == Some(packet.pid) {
            proof {
                lemma_psi_push_sections(self.pmt@, packet.payload@, packet.unit_start, limits.max_psi_section_bytes as int);
            }
            let sections = self.pmt.push(packet.payload, packet.unit_start, limits.max_psi_section_bytes)?;
            self.apply_pmt(&sections, limits)
        } else if self.audio_pid == Some(packet.pid) {
            self.pes.push(packet.payload, packet.unit_start)
        } else {
            Ok(())
        }
    }
}

/// Extracts one bounded ADTS elementary stream from a finite MPEG-TS segment.
///
/// PAT and PMT select stream type `0x0f`; PES headers are removed and optional SDT service
/// metadata is retained. The input must contain complete 188-byte transport packets. An
/// elementary PID is never guessed when PAT or PMT are absent.
pub fn extract_mpeg_ts_adts(bytes: &[u8], limits: MpegTsLimits) -> (result: Result<
    MpegTsAdtsSegment,
    MpegTsError,
>)
    ensures
        match spec_extract(bytes@, limits) {
            Ok((adts, metadata)) => result is Ok && result->Ok_0.spec_adts() == adts
                && result->Ok_0.spec_metadata() == metadata,
            Err(e) => result == Err::<MpegTsAdtsSegment, MpegTsError>(e),
        },
{
    limits.validate()?;
    let trailing_bytes = bytes.len() % TS_PACKET_BYTES;
    if trailing_bytes != 0 {
        return Err(MpegTsError::TruncatedPacket { trailing_bytes });
    }
    let packet_count = bytes.len() / TS_PACKET_BYTES;
    if packet_count > limits.max_packets {
        return Err(MpegTsError::TooManyPackets { actual: packet_count, limit: limits.max_packets });
    }
    let mut demuxer = Demuxer::new(limits);
    let ghost init = demux_init(limits);
    let mut index: usize = 0;
    while index < packet_count
        invariant
            demuxer.wf(),
            index <= packet_count,
            packet_count == bytes@.len() / 188,
            bytes@.len() % 188 == 0,
            bytes@.len() <= usize::MAX,
            init == demux_init(limits),
            limits.is_valid(),
            packet_count <= limits.max_packets,
            demux_from(init, bytes@, 0, packet_count as int, limits) == demux_from(
                demuxer@,
                bytes@,
                index as int,
                packet_count as int,
                limits,
            ),
        decreases packet_count - index,
    {
        proof {
            assert(index * 188 + 188 <= bytes@.len() && 188 * index == index * 188) by (nonlinear_arith)
                requires
                    index < packet_count,
                    packet_count == bytes@.len() / 188,
                    bytes@.len() % 188 == 0,
            ;
        }
        let start: usize = index * 188;
        let raw = &bytes[start..start + 188];
        proof {
            assert(raw@ == bytes@.subrange(188 * index, 188 * index + 188));
        }
        demuxer.packet(raw, index, limits)?;
        index = index + 1;
    }
    if demuxer.pat.is_partial() || demuxer.pmt.is_partial() || demuxer.sdt.is_partial() {
        return Err(MpegTsError::TruncatedPsi);
    }
    if demuxer.pmt_pid.is_none() {
        return Err(MpegTsError::MissingProgramMap);
    }
    if demuxer.audio_pid.is_none() {
        return Err(MpegTsError::MissingAdtsStream);
    }
    let metadata = demuxer.metadata;
    let adts = demuxer.pes.finish()?;
    if adts.len() == 0 {
        return Err(MpegTsError::MissingAdtsPayload);
    }
    Ok(MpegTsAdtsSegment { adts, metadata })
}

} // verus!
