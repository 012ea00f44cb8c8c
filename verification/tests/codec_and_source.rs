use mantle_media::codec::{parse_audio_specific_config, AudioSpecificConfig};
use mantle_media::http_policy::{is_public_ipv4, is_public_ipv6, parse_content_range};
use mantle_media::source::{
    decode_probe, encode_probe, extension_hint, is_playlist_identifier, normalize_http_identifier,
    MediaProbe, SourceRegistryError,
};

#[test]
fn parses_lc_and_explicit_he_audio_specific_configs() {
    assert_eq!(
        parse_audio_specific_config(&[0x11, 0x90]),
        Some(AudioSpecificConfig {
            initial_audio_object_type: 2,
            audio_object_type: 2,
            core_sample_rate: 48_000,
            channel_configuration: 2,
            explicit_he: false,
        })
    );
    assert_eq!(
        parse_audio_specific_config(&[0x2b, 0x92, 0x08]),
        Some(AudioSpecificConfig {
            initial_audio_object_type: 5,
            audio_object_type: 2,
            core_sample_rate: 22_050,
            channel_configuration: 2,
            explicit_he: true,
        })
    );
    assert_eq!(parse_audio_specific_config(&[0x11]), None);
}

#[test]
fn probe_details_match_lavaplayer_ascii_modified_utf_records() {
    assert_eq!(encode_probe(MediaProbe::Wave).unwrap(), b"\0\x03wav");
    assert_eq!(
        encode_probe(MediaProbe::HlsOuter).unwrap(),
        b"\0\rm3u|hls-outer"
    );
    assert_eq!(decode_probe(b"\0\x03wav"), Ok(MediaProbe::Wave));
    assert_eq!(decode_probe(b"\0\rm3u|hls-outer"), Ok(MediaProbe::HlsOuter));
    assert_eq!(
        decode_probe(b"\0\x07unknown"),
        Err(SourceRegistryError::SourceFailure)
    );
}

#[test]
fn schemes_playlist_hints_and_extensions_are_strict_and_deterministic() {
    assert_eq!(
        normalize_http_identifier("icy://example.test/live"),
        Some("http://example.test/live".to_owned())
    );
    assert_eq!(normalize_http_identifier("HTTP://example.test"), None);
    assert!(is_playlist_identifier("https://example.test/list.M3U8?q=1"));
    assert_eq!(
        extension_hint("https://example.test/audio.ogg?q=1"),
        Some("ogg".to_owned())
    );
}

#[test]
fn public_address_policy_denies_special_ranges() {
    for octets in [
        [127, 0, 0, 1],
        [10, 0, 0, 1],
        [100, 64, 0, 1],
        [169, 254, 1, 1],
        [172, 16, 0, 1],
        [192, 168, 0, 1],
        [198, 51, 100, 1],
        [224, 0, 0, 1],
    ] {
        assert!(!is_public_ipv4(octets), "{octets:?}");
    }
    let loopback = [0, 0, 0, 0, 0, 0, 0, 0, 0, 0, 0, 0, 0, 0, 0, 1];
    let unique_local = [0xfc, 0, 0, 0, 0, 0, 0, 0, 0, 0, 0, 0, 0, 0, 0, 1];
    let link_local = [0xfe, 0x80, 0, 0, 0, 0, 0, 0, 0, 0, 0, 0, 0, 0, 0, 1];
    let documentation = [0x20, 0x01, 0x0d, 0xb8, 0, 0, 0, 0, 0, 0, 0, 0, 0, 0, 0, 1];
    let orchid = [0x20, 0x01, 0x00, 0x10, 0, 0, 0, 0, 0, 0, 0, 0, 0, 0, 0, 1];
    let orchid_v2 = [0x20, 0x01, 0x00, 0x20, 0, 0, 0, 0, 0, 0, 0, 0, 0, 0, 0, 1];
    for octets in [loopback, unique_local, link_local, documentation, orchid, orchid_v2] {
        assert!(!is_public_ipv6(octets), "{octets:?}");
    }
    assert!(is_public_ipv4([93, 184, 216, 34]));
    let public = [
        0x26, 0x06, 0x28, 0x00, 0x02, 0x20, 0x00, 0x01, 0x02, 0x48, 0x18, 0x93, 0x25, 0xc8, 0x19,
        0x46,
    ];
    assert!(is_public_ipv6(public));
}

#[test]
fn content_range_parser_rejects_duplicates_and_inconsistent_numbers() {
    let mut headers: Vec<Vec<u8>> = vec![b"bytes 0-9/10".to_vec()];
    assert_eq!(parse_content_range(&headers).unwrap().total, 10);

    headers.push(b"bytes 0-9/10".to_vec());
    assert!(parse_content_range(&headers).is_err());

    let headers: Vec<Vec<u8>> = vec![b"bytes 9-10/10".to_vec()];
    assert!(parse_content_range(&headers).is_err());
}

#[test]
fn dependency_trace_logging_is_compile_time_disabled() {
    assert_eq!(log::STATIC_MAX_LEVEL, log::LevelFilter::Debug);
}
