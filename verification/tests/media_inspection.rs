use mantle_media::duration::Duration;
use mantle_media::hls::HlsError;
use mantle_media::mpeg_ts::MpegTsError;
use mantle_media::playlist::PlaylistError;
use mantle_media::remote_http::{RemoteHttpError, RemoteHttpErrorKind};
use mantle_media::codec::AdtsConfig;
use mantle_media::ebml::{
    default_audio_frequency, ebml_metadata, find_adts_header, find_element, read_element,
    read_float_bits, read_uint, read_vint, EbmlFloat,
};
use mantle_media::media::{
    check_encoded_output, extract_metadata, Codec, Container, EncodedPacket, MediaError,
    MediaLimits, MetadataField, MetadataRevision, MetadataTag,
};
use mantle_media::session::{
    check_pcm_frame, hinted_ebml_container, note_decode_error, probe_extension,
    wants_adts_inspection,
    aac_probe_candidate, adts_config_from_params, adts_track_config, admit_probe_packet,
    needs_implicit_aac_probe, probe_outcome, session_layout, source_channel_count,
    track_sample_rate, unresolved_probe, validate_wave_track_params, ProbeDecode,
};

fn element(id: &[u8], payload: &[u8]) -> Vec<u8> {
    assert!(payload.len() < 127);
    let mut out = id.to_vec();
    out.push(0x80 | payload.len() as u8);
    out.extend_from_slice(payload);
    out
}

fn webm_header(title: &[u8], frequency: Option<&[u8]>, default_flag: Option<u8>) -> Vec<u8> {
    let doc = element(&[0x42, 0x82], b"webm");
    let mut bytes = element(&[0x1a, 0x45, 0xdf, 0xa3], &doc);
    let info = element(&[0x15, 0x49, 0xa9, 0x66], &element(&[0x7b, 0xa9], title));
    let mut entry = element(&[0x83], &[2]);
    if let Some(flag) = default_flag {
        entry.extend(element(&[0x88], &[flag]));
    }
    if let Some(f) = frequency {
        entry.extend(element(&[0xe1], &element(&[0x78, 0xb5], f)));
    }
    let tracks = element(&[0x16, 0x54, 0xae, 0x6b], &element(&[0xae], &entry));
    let mut segment_payload = info;
    segment_payload.extend(tracks);
    bytes.extend(element(&[0x18, 0x53, 0x80, 0x67], &segment_payload));
    bytes
}

#[test]
fn vints_keep_or_drop_their_marker() {
    assert_eq!(read_vint(&[0x81], true), Some((0x81, 1)));
    assert_eq!(read_vint(&[0x81], false), Some((1, 1)));
    assert_eq!(read_vint(&[0x40, 0x02], false), Some((2, 2)));
    assert_eq!(read_vint(&[0x1a, 0x45, 0xdf, 0xa3], true), Some((0x1a45_dfa3, 4)));
    assert_eq!(read_vint(&[0xff], false), Some((u64::MAX, 1)));
    assert_eq!(read_vint(&[0x00, 0x01], true), None);
    assert_eq!(read_vint(&[0x40], true), None);
}

#[test]
fn elements_report_truncated_payloads() {
    let (id, e, consumed) = read_element(&[0x83, 0x81, 0x02, 0x99]).unwrap();
    assert_eq!((id, e.data, e.complete, consumed), (0x83, vec![2], true, 3));
    let (_, e, consumed) = read_element(&[0x83, 0x85, 0x02]).unwrap();
    assert_eq!((e.data, e.complete, consumed), (vec![2], false, 7));
    assert!(find_element(&[0x83, 0x81, 0x02, 0x88, 0x81, 0x01], 0x88).unwrap().complete);
    assert!(find_element(&[0x83, 0x81, 0x02], 0x88).is_none());
    assert_eq!(read_uint(&[1, 0]), Some(256));
    assert_eq!(read_uint(&[]), None);
    assert_eq!(read_float_bits(&[0x47, 0x3b, 0x80, 0x00]), Some(EbmlFloat::Single(0x473b_8000)));
    assert_eq!(read_float_bits(&[1, 2, 3]), None);
}

#[test]
fn ebml_metadata_reads_container_title_and_default_audio_frequency() {
    let header = webm_header(b"Song", Some(&[0x47, 0x3b, 0x80, 0x00]), None);
    let metadata = ebml_metadata(&header, 1024).unwrap();
    assert_eq!(metadata.container, Container::WebM);
    assert_eq!(metadata.segment_title.as_deref(), Some("Song"));
    assert_eq!(metadata.frequency, Some(EbmlFloat::Single(0x473b_8000)));
    let untitled = ebml_metadata(&webm_header(b"", None, None), 1024).unwrap();
    assert_eq!(untitled.segment_title, None);
    assert_eq!(untitled.frequency, None);
    assert!(ebml_metadata(&header, 3).unwrap().segment_title.is_none());
    assert!(ebml_metadata(b"not ebml", 1024).is_none());
}

#[test]
fn non_default_audio_tracks_are_a_fallback() {
    let mut first = element(&[0x83], &[2]);
    first.extend(element(&[0x88], &[0]));
    first.extend(element(&[0xe1], &element(&[0x78, 0xb5], &[0x47, 0x3b, 0x80, 0x00])));
    let mut second = element(&[0x83], &[2]);
    second.extend(element(&[0xe1], &element(&[0x78, 0xb5], &[0x47, 0x2c, 0x44, 0x00])));
    let mut tracks = element(&[0xae], &first);
    tracks.extend(element(&[0xae], &second));
    assert_eq!(default_audio_frequency(&tracks), Some(EbmlFloat::Single(0x472c_4400)));
    assert_eq!(
        default_audio_frequency(&element(&[0xae], &first)),
        Some(EbmlFloat::Single(0x473b_8000))
    );
}

#[test]
fn adts_scan_finds_the_first_header_within_the_distance() {
    let header = [0xff, 0xf1, 0x50, 0x80, 0x02, 0x1f, 0xfc];
    let mut bytes = vec![0u8; 3];
    bytes.extend_from_slice(&header);
    let (offset, config) = find_adts_header(&bytes, 1000).unwrap();
    assert_eq!(offset, 3);
    assert_eq!(config.sample_rate, 44100);
    assert!(find_adts_header(&bytes, 3).is_none());
}

#[test]
fn adts_and_wave_track_checks() {
    let config = adts_config_from_params(Some(44100), Some(2)).unwrap();
    assert_eq!(
        (config.audio_object_type, config.sample_rate_index, config.channel_configuration),
        (2, 4, 2)
    );
    assert!(adts_config_from_params(Some(44000), Some(2)).is_none());
    assert!(adts_config_from_params(Some(44100), Some(3)).is_none());
    assert!(adts_track_config(None, Some(config)).is_ok());
    let he = AdtsConfig { audio_object_type: 5, ..config };
    assert!(matches!(
        adts_track_config(Some(he), Some(config)),
        Err(MediaError::UnsupportedCodecProfile { profile: "ADTS audio object type is not AAC-LC", .. })
    ));
    assert!(matches!(
        adts_track_config(None, None),
        Err(MediaError::UnsupportedCodecProfile { codec: "AAC", .. })
    ));
    assert!(validate_wave_track_params(Some(44100), Some(2), "pcm_s16le").is_ok());
    match validate_wave_track_params(Some(50), Some(2), "pcm_s16le") {
        Err(MediaError::UnsupportedCodec(m)) => {
            assert_eq!(m, "WAVE PCM sample rate 50 is outside 100..=384000 Hz")
        }
        _ => panic!("expected an unsupported codec"),
    }
    match validate_wave_track_params(Some(44100), Some(6), "pcm_s16le") {
        Err(MediaError::UnsupportedCodec(m)) => {
            assert_eq!(m, "WAVE PCM channel count 6 is outside Mantle's mono/stereo scope")
        }
        _ => panic!("expected an unsupported codec"),
    }
    match source_channel_count(None, "opus") {
        Err(MediaError::UnsupportedCodec(m)) => assert_eq!(m, "opus without a supported channel count"),
        _ => panic!("expected an unsupported codec"),
    }
}

#[test]
fn session_plan_prefers_the_ebml_rate_and_probes_implicit_aac() {
    assert_eq!(track_sample_rate(Some(48000), Some(24000), "aac").unwrap(), 48000);
    assert_eq!(track_sample_rate(None, Some(24000), "aac").unwrap(), 24000);
    match track_sample_rate(None, None, "aac") {
        Err(MediaError::UnsupportedCodec(m)) => assert_eq!(m, "aac without a sample rate"),
        _ => panic!("expected an unsupported codec"),
    }
    assert!(needs_implicit_aac_probe(Codec::AacLc, Container::Adts, None));
    assert!(needs_implicit_aac_probe(Codec::AacLc, Container::Matroska, None));
    assert!(!needs_implicit_aac_probe(Codec::AacLc, Container::Matroska, Some(48000)));
    assert!(!needs_implicit_aac_probe(Codec::Mp3, Container::Adts, None));
    assert_eq!(session_layout(Codec::HeAacV2, 1, Container::Mp4, true), (2, true));
    assert_eq!(session_layout(Codec::AacLc, 1, Container::Adts, true), (1, false));
}

#[test]
fn implicit_aac_probe_is_bounded_and_decided_by_the_frame_rate() {
    assert_eq!(aac_probe_candidate(Some(&[0x12, 0x10])).unwrap(), (Codec::HeAacV1, 44100));
    assert_eq!(aac_probe_candidate(Some(&[0x12, 0x08])).unwrap(), (Codec::HeAacV2, 44100));
    assert!(matches!(
        aac_probe_candidate(None),
        Err(MediaError::UnsupportedCodecProfile {
            profile: "implicit profile probe requires AudioSpecificConfig",
            ..
        })
    ));
    let limits = MediaLimits::default_limits();
    assert_eq!(admit_probe_packet(10, 20, &limits).unwrap(), 30);
    assert!(matches!(
        admit_probe_packet(0, limits.max_packet_bytes + 1, &limits),
        Err(MediaError::PacketTooLarge { .. })
    ));
    assert!(matches!(
        admit_probe_packet(limits.max_codec_probe_bytes, 1, &limits),
        Err(MediaError::CodecProbeLimitExceeded { .. })
    ));
    assert_eq!(probe_outcome(ProbeDecode::NeedMoreInput, Codec::HeAacV1, 22050), None);
    assert_eq!(
        probe_outcome(ProbeDecode::Frame(44100), Codec::HeAacV1, 22050),
        Some((Codec::HeAacV1, 44100))
    );
    assert_eq!(
        probe_outcome(ProbeDecode::Frame(22050), Codec::HeAacV1, 22050),
        Some((Codec::AacLc, 22050))
    );
    assert!(matches!(unresolved_probe(), MediaError::UnsupportedCodecProfile { codec: "AAC", .. }));
}

#[test]
fn error_texts_match_their_fields() {
    assert_eq!(
        MediaError::PacketTooLarge { actual: 10, limit: 5 }.message(),
        "media packet has 10 bytes; limit is 5"
    );
    assert_eq!(
        MediaError::WrongOutputKind { codec: Codec::HeAacV2 }.message(),
        "the HeAacV2 track does not produce this output kind"
    );
    assert!(MediaError::Io(std::io::Error::other("x")).message().starts_with("media I/O failed: "));
    assert_eq!(
        MpegTsError::Continuity { pid: 0x100, expected: 3, actual: 5 }.message(),
        "MPEG-TS PID 0x100 continuity expected 3, received 5"
    );
    assert_eq!(
        MpegTsError::TruncatedPacket { trailing_bytes: 7 }.message(),
        "MPEG-TS input ends with a 7-byte partial packet"
    );
    assert_eq!(
        PlaylistError::TooManyEntries { limit: 3 }.message(),
        "playlist contains more than 3 entries"
    );
    assert_eq!(
        HlsError::SegmentDurationExceeded {
            actual: Duration::from_millis(1500),
            limit: Duration::from_secs(1)
        }
        .message(),
        "HLS segment duration 1.5s exceeds the 1s limit"
    );
    assert_eq!(
        HlsError::Playlist(PlaylistError::InvalidReference("bad")).message(),
        "invalid playlist reference: bad"
    );
    assert_eq!(
        RemoteHttpError::new(RemoteHttpErrorKind::NotFound).message(),
        "remote resource was not found"
    );
}

fn tag(field: MetadataField, value: &str) -> MetadataTag {
    MetadataTag { field, value: value.to_owned() }
}

#[test]
fn metadata_prefers_track_tags_and_skips_oversized_values() {
    let revisions = vec![
        MetadataRevision {
            media: vec![
                tag(MetadataField::Title, "Album"),
                tag(MetadataField::Author, ""),
                tag(MetadataField::Author, "Band"),
                tag(MetadataField::Title, "Second"),
            ],
            track: Some(vec![tag(MetadataField::Isrc, "ISRC1234567890")]),
        },
        MetadataRevision {
            media: vec![tag(MetadataField::Author, "Later")],
            track: Some(vec![
                tag(MetadataField::Title, "Track"),
                tag(MetadataField::Author, "\u{e9}\u{e9}\u{e9}\u{e9}\u{e9}\u{e9}\u{e9}\u{e9}"),
            ]),
        },
    ];
    let metadata = extract_metadata(&revisions, 14);
    assert_eq!(metadata.title.as_deref(), Some("Track"));
    assert_eq!(metadata.author.as_deref(), Some("Band"));
    assert_eq!(metadata.isrc.as_deref(), Some("ISRC1234567890"));
    let metadata = extract_metadata(&revisions, 13);
    assert_eq!(metadata.isrc, None);
    assert_eq!(extract_metadata(&[], 64).title, None);
}

#[test]
fn encoded_packets_fit_their_storage_and_fall_back_to_packet_durations() {
    assert!(check_encoded_output(Codec::Opus).is_ok());
    assert!(matches!(
        check_encoded_output(Codec::AacLc),
        Err(MediaError::WrongOutputKind { codec: Codec::AacLc })
    ));
    let mut exact = EncodedPacket::with_capacity(4);
    assert!(exact.store(&[1, 2, 3, 4], None, None, None).is_ok());
    let mut packet = EncodedPacket::with_capacity(4);
    let ts = Some(Duration::from_millis(20));
    packet.store(&[1, 2, 3], ts, Some(Duration::zero()), Some(Duration::from_millis(10))).unwrap();
    assert_eq!(packet.data(), &[1, 2, 3]);
    assert_eq!(packet.timestamp(), ts);
    assert_eq!(packet.duration(), Some(Duration::from_millis(10)));
    packet.store(&[4], None, Some(Duration::from_millis(5)), None).unwrap();
    assert_eq!(packet.duration(), Some(Duration::from_millis(5)));
    let big = vec![0u8; 1 << 20];
    assert!(matches!(
        packet.store(&big, None, None, None),
        Err(MediaError::OutputBufferTooSmall { required, .. }) if required == 1 << 20
    ));
    assert_eq!(packet.data(), &[4]);
    packet.clear();
    assert!(packet.data().is_empty());
}

#[test]
fn extension_hints_and_decode_bounds() {
    assert_eq!(hinted_ebml_container(Some("WebM")), Some(Container::WebM));
    assert_eq!(hinted_ebml_container(Some("mkv")), Some(Container::Matroska));
    assert_eq!(hinted_ebml_container(Some("mp3")), None);
    assert_eq!(hinted_ebml_container(None), None);
    assert!(wants_adts_inspection(true, false, Some("AAC")));
    assert!(wants_adts_inspection(true, false, Some("adts")));
    assert!(!wants_adts_inspection(false, false, Some("aac")));
    assert!(!wants_adts_inspection(true, true, Some("aac")));
    assert_eq!(probe_extension(true, Some("m4a")), Some("aac"));
    assert_eq!(probe_extension(false, Some("m4a")), Some("m4a"));
    assert_eq!(note_decode_error(0, 8).unwrap(), 1);
    assert!(matches!(note_decode_error(8, 8), Err(MediaError::DecodeErrorLimitExceeded { limit: 8 })));
    assert_eq!(note_decode_error(u32::MAX, u32::MAX).unwrap(), u32::MAX);
    let limits = MediaLimits::default_limits();
    assert!(check_pcm_frame(limits.max_pcm_samples_per_frame, &limits).is_ok());
    assert!(matches!(
        check_pcm_frame(limits.max_pcm_samples_per_frame + 1, &limits),
        Err(MediaError::PcmFrameTooLarge { .. })
    ));
}
