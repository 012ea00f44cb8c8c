use mantle_media::mpeg_ts::{extract_mpeg_ts_adts, MpegTsError, MpegTsLimits};

const ADTS: [u8; 9] = [0xff, 0xf1, 0x50, 0x80, 0x01, 0x3f, 0xfc, 0xaa, 0xbb];

fn packet(pid: u16, unit_start: bool, continuity: u8, payload: &[u8]) -> Vec<u8> {
    let mut out = vec![
        0x47,
        (if unit_start { 0x40 } else { 0 }) | ((pid >> 8) as u8 & 0x1f),
        pid as u8,
        0x10 | (continuity & 0x0f),
    ];
    out.extend_from_slice(payload);
    out.resize(188, 0xff);
    out
}

fn pat() -> Vec<u8> {
    packet(
        0,
        true,
        0,
        &[0x00, 0x00, 0xb0, 0x0d, 0x00, 0x01, 0xc1, 0x00, 0x00, 0x00, 0x01, 0xe1, 0x00, 1, 2, 3, 4],
    )
}

fn pmt() -> Vec<u8> {
    packet(
        0x100,
        true,
        0,
        &[
            0x00, 0x02, 0xb0, 0x12, 0x00, 0x01, 0xc1, 0x00, 0x00, 0xe1, 0x01, 0xf0, 0x00, 0x0f,
            0xe1, 0x01, 0xf0, 0x00, 1, 2, 3, 4,
        ],
    )
}

fn pes() -> Vec<u8> {
    let mut payload = vec![0x00, 0x00, 0x01, 0xc0, 0x00, 12, 0x80, 0x00, 0x00];
    payload.extend_from_slice(&ADTS);
    packet(0x101, true, 0, &payload)
}

#[test]
fn adts_is_extracted_from_the_program_audio_stream() {
    let mut stream = pat();
    stream.extend(pmt());
    stream.extend(pes());
    let segment = extract_mpeg_ts_adts(&stream, MpegTsLimits::default_limits()).unwrap();
    assert_eq!(segment.adts_bytes(), &ADTS);
    assert_eq!(segment.metadata().service_name, None);
    assert_eq!(segment.into_adts_bytes(), ADTS.to_vec());
}

#[test]
fn transport_streams_must_be_whole_and_complete() {
    let limits = MpegTsLimits::default_limits();
    let mut partial = pat();
    partial.extend_from_slice(&[0x47; 7]);
    assert_eq!(
        extract_mpeg_ts_adts(&partial, limits).unwrap_err(),
        MpegTsError::TruncatedPacket { trailing_bytes: 7 }
    );
    assert_eq!(
        extract_mpeg_ts_adts(&packet(0x1fff, false, 0, &[]), limits).unwrap_err(),
        MpegTsError::MissingProgramMap
    );
    assert_eq!(extract_mpeg_ts_adts(&pat(), limits).unwrap_err(), MpegTsError::MissingAdtsStream);
    let mut no_audio = pat();
    no_audio.extend(pmt());
    assert_eq!(
        extract_mpeg_ts_adts(&no_audio, limits).unwrap_err(),
        MpegTsError::MissingAdtsPayload
    );
    let mut bad_sync = pat();
    bad_sync[0] = 0x48;
    assert_eq!(
        extract_mpeg_ts_adts(&bad_sync, limits).unwrap_err(),
        MpegTsError::InvalidPacket { packet: 0, reason: "sync byte is not 0x47" }
    );
    let mut skipped = pat();
    skipped.extend(pmt());
    skipped.extend(pes());
    skipped.extend(packet(0x101, false, 2, &[]));
    skipped.extend(packet(0x101, false, 2, &[0xaa]));
    assert_eq!(
        extract_mpeg_ts_adts(&skipped, limits).unwrap_err(),
        MpegTsError::Continuity { pid: 0x101, expected: 1, actual: 2 }
    );
}

#[test]
fn streams_without_a_program_table_are_never_accepted() {
    let limits = MpegTsLimits::default_limits();
    assert_eq!(extract_mpeg_ts_adts(&[], limits).unwrap_err(), MpegTsError::MissingProgramMap);
    let mut pmt_only = pmt();
    pmt_only.extend(pes());
    assert_eq!(extract_mpeg_ts_adts(&pmt_only, limits).unwrap_err(), MpegTsError::MissingProgramMap);
}

#[test]
fn extracted_streams_are_bounded_by_their_input() {
    let limits = MpegTsLimits::default_limits();
    let mut stream = pat();
    stream.extend(pmt());
    stream.extend(pes());
    let segment = extract_mpeg_ts_adts(&stream, limits).unwrap();
    assert!(!segment.adts_bytes().is_empty());
    assert!(segment.adts_bytes().len() <= limits.max_pes_payload_bytes);
    assert!(segment.adts_bytes().len() < stream.len());
    assert_eq!(segment.metadata().service_provider, None);
}
