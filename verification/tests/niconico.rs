use cbc::cipher::block_padding::Pkcs7;
use cbc::cipher::{BlockModeEncrypt, KeyIvInit};
use mantle_media::http_policy::HttpNetworkAccess;
use mantle_media::niconico::{
    check_playback_format, decrypt_aes128_cbc, parse_access_right, route_niconico_identifier,
    select_format, validate_control_base, validate_playback_url, NicoNicoAuthentication,
    NicoNicoErrorKind, NicoNicoFormat, NicoNicoPlaybackErrorKind, NicoNicoPlaybackScheme,
    NicoNicoRoute, NicoNicoSourceManager, NicoNicoSourceOptions, NicoNicoWatchData,
    parse_watch, KeyCache, append_decoded,
};
use mantle_media::media::{Codec, Container};
use mantle_media::niconico_hls::{
    parse_attributes, parse_iv, parse_master_audio_url, parse_media_playlist, sequence_iv,
};

fn private_options() -> NicoNicoSourceOptions {
    let mut options = NicoNicoSourceOptions::default_options();
    options.http.network_access = HttpNetworkAccess::AllowPrivateNetworks;
    options.playback_scheme = NicoNicoPlaybackScheme::HttpForPrivateNetworks;
    options
}

#[test]
fn sequence_iv_places_the_media_sequence_in_the_low_64_bits() {
    assert_eq!(
        sequence_iv(0x0102_0304_0506_0708),
        [0, 0, 0, 0, 0, 0, 0, 0, 1, 2, 3, 4, 5, 6, 7, 8]
    );
}

#[test]
fn playlist_and_origin_failures_are_bounded_and_explicit() {
    let mut options = private_options();
    assert!(parse_media_playlist(
        "http://127.0.0.1/audio.m3u8",
        b"#EXTM3U\n#EXT-X-MAP:URI=\"init.cmfa\"\n#EXTINF:1,\nsegment.cmfa\n",
        &options,
    )
    .is_err());
    assert!(decrypt_aes128_cbc(vec![0; 15], [0; 16], [0; 16]).is_err());
    assert!(validate_playback_url(
        "https://delivery.domand.nicovideo.jp.evil.test/master.m3u8",
        NicoNicoPlaybackScheme::Https,
    )
    .is_err());

    options.max_playlist_entries = 0;
    assert_eq!(
        NicoNicoSourceManager::new(options, 10, 10).err().unwrap().kind(),
        NicoNicoErrorKind::InvalidOptions
    );
}

#[test]
fn canonical_url_and_routes() {
    let route = NicoNicoRoute { video_id: "sm9".to_owned() };
    assert_eq!(route.canonical_url(), "https://www.nicovideo.jp/watch/sm9");
    let options = NicoNicoSourceOptions::default_options();
    for (input, expected) in [
        ("https://www.nicovideo.jp/watch/sm9", Some("sm9")),
        ("nicovideo.jp/watch/so12345", Some("so12345")),
        ("https://SP.NICOVIDEO.JP/shorts/123/", Some("123")),
        ("https://embed.nicovideo.jp/watch/sm9?from=1", Some("sm9")),
        ("https://www.nicovideo.jp/watch/sm9#t", None),
        ("https://user@www.nicovideo.jp/watch/sm9", None),
        ("https://www.nicovideo.jp:8443/watch/sm9", None),
        ("https://www.nicovideo.jp/watch/s9", None),
        ("https://www.nicovideo.jp/watch/SM9", None),
        ("https://www.nicovideo.jp/user/sm9", None),
        ("https://www.nicovideo.jp/watch/sm9/extra", None),
        ("https://example.com/watch/sm9", None),
        ("", None),
    ] {
        assert_eq!(
            route_niconico_identifier(input, &options).map(|route| route.video_id),
            expected.map(str::to_owned),
            "{input}"
        );
    }
}

#[test]
fn authentication_requires_a_header_safe_cookie() {
    assert!(NicoNicoAuthentication::new_user_session("user_session_abc".to_owned()).is_ok());
    for bad in ["", "a;b", "a,b", "a b", "caf\u{e9}"] {
        assert_eq!(
            NicoNicoAuthentication::new_user_session(bad.to_owned())
                .err()
                .unwrap()
                .kind(),
            NicoNicoErrorKind::InvalidAuthentication
        );
    }
    assert!(NicoNicoAuthentication::new_user_session("x".repeat(16 * 1024 + 1)).is_err());
}

#[test]
fn default_options_validate_and_control_bases_are_strict() {
    let options = NicoNicoSourceOptions::default_options();
    assert!(options.validate().is_ok());
    assert!(NicoNicoSourceManager::new(options.clone(), 10, 10).is_ok());
    assert!(validate_control_base(
        "https://WWW.nicovideo.jp/api/watch",
        "www.nicovideo.jp",
        NicoNicoPlaybackScheme::Https
    )
    .is_ok());
    for bad in [
        "http://www.nicovideo.jp/api/watch",
        "https://evil.test/api/watch",
        "https://www.nicovideo.jp/api/watch?x=1",
        "https://www.nicovideo.jp:443/api/watch",
    ] {
        assert_eq!(
            validate_control_base(bad, "www.nicovideo.jp", NicoNicoPlaybackScheme::Https)
                .unwrap_err()
                .kind(),
            NicoNicoErrorKind::InvalidOptions
        );
    }
    let mut http_without_private = options.clone();
    http_without_private.playback_scheme = NicoNicoPlaybackScheme::HttpForPrivateNetworks;
    assert!(http_without_private.validate().is_err());
}

#[test]
fn playback_urls_accept_only_domand_hosts_over_https() {
    assert!(validate_playback_url(
        "https://delivery.domand.nicovideo.jp/hls/master.m3u8",
        NicoNicoPlaybackScheme::Https
    )
    .is_ok());
    assert!(validate_playback_url("https://domand.nicovideo.jp/x", NicoNicoPlaybackScheme::Https).is_ok());
    assert!(validate_playback_url("http://domand.nicovideo.jp/x", NicoNicoPlaybackScheme::Https).is_err());
    assert!(validate_playback_url("http://127.0.0.1:8080/x", NicoNicoPlaybackScheme::HttpForPrivateNetworks).is_ok());
    assert!(validate_playback_url("http://a@127.0.0.1/x", NicoNicoPlaybackScheme::HttpForPrivateNetworks).is_err());
    assert!(validate_playback_url("https://domand.nicovideo.jp/x#f", NicoNicoPlaybackScheme::Https).is_err());

    let options = NicoNicoSourceOptions::default_options();
    let url = parse_access_right(
        Some(201),
        Some("https://delivery.domand.nicovideo.jp/master.m3u8"),
        "audio-aac-128kbps",
        &options,
    )
    .unwrap();
    assert_eq!(url.as_str(), "https://delivery.domand.nicovideo.jp/master.m3u8");
    assert_eq!(url.audio_id(), "audio-aac-128kbps");
    assert_eq!(
        parse_access_right(Some(200), Some("https://domand.nicovideo.jp/m"), "a", &options)
            .err()
            .unwrap()
            .kind(),
        NicoNicoErrorKind::InvalidResponse
    );
}

#[test]
fn attributes_respect_quotes_and_reject_duplicates() {
    let options = NicoNicoSourceOptions::default_options();
    let chars: Vec<char> = "TYPE=AUDIO,GROUP-ID=\"a,b\", URI=\"x.m3u8\"".chars().collect();
    let attrs = parse_attributes(&chars, &options).unwrap();
    let text: Vec<(String, String)> = attrs
        .iter()
        .map(|(n, v)| (n.iter().collect(), v.iter().collect()))
        .collect();
    assert_eq!(
        text,
        vec![
            ("TYPE".to_owned(), "AUDIO".to_owned()),
            ("GROUP-ID".to_owned(), "a,b".to_owned()),
            ("URI".to_owned(), "x.m3u8".to_owned()),
        ]
    );
    for bad in ["A=1,A=2", "A=\"open", "NOVALUE", "=1"] {
        let chars: Vec<char> = bad.chars().collect();
        assert_eq!(
            parse_attributes(&chars, &options).unwrap_err().kind(),
            NicoNicoPlaybackErrorKind::InvalidPlaylist
        );
    }
}

#[test]
fn iv_attributes_are_hexadecimal() {
    let chars: Vec<char> = "0x000102030405060708090A0B0C0D0E0F".chars().collect();
    assert_eq!(
        parse_iv(&chars).unwrap(),
        (0u8..16).collect::<Vec<u8>>()
    );
    for bad in ["000102030405060708090A0B0C0D0E0F", "0x0001", "0xZZ0102030405060708090A0B0C0D0E0F"] {
        let chars: Vec<char> = bad.chars().collect();
        assert!(parse_iv(&chars).is_err());
    }
}

#[test]
fn master_playlists_choose_the_requested_audio_group() {
    let options = private_options();
    let master = b"#EXTM3U\n#EXT-X-MEDIA:TYPE=AUDIO,GROUP-ID=\"low\",URI=\"low.m3u8\"\n#EXT-X-MEDIA:TYPE=AUDIO,GROUP-ID=\"high\",URI=\"high.m3u8\"\n#EXT-X-STREAM-INF:BANDWIDTH=1\nvideo.m3u8\n";
    assert_eq!(
        parse_master_audio_url("http://127.0.0.1/hls/master.m3u8", master, "high", &options).unwrap(),
        "http://127.0.0.1/hls/high.m3u8"
    );
    assert_eq!(
        parse_master_audio_url("http://127.0.0.1/hls/master.m3u8", master, "none", &options).unwrap(),
        "http://127.0.0.1/hls/low.m3u8"
    );
    let media = b"#EXTM3U\n#EXTINF:1,\nseg.cmfa\n";
    assert_eq!(
        parse_master_audio_url("http://127.0.0.1/a.m3u8", media, "x", &options).unwrap(),
        "http://127.0.0.1/a.m3u8"
    );
    assert!(parse_master_audio_url("http://127.0.0.1/a.m3u8", b"#EXTM3U\n", "x", &options).is_err());
    assert!(parse_master_audio_url("http://127.0.0.1/a.m3u8", b"not a playlist", "x", &options).is_err());
}

#[test]
fn media_playlists_assign_sequence_ivs() {
    let options = private_options();
    let playlist = b"#EXTM3U\n#EXT-X-MEDIA-SEQUENCE:7\n#EXT-X-KEY:METHOD=AES-128,URI=\"key.bin\",IV=0x000102030405060708090A0B0C0D0E0F\n#EXT-X-MAP:URI=\"init.cmfa\"\n#EXT-X-KEY:METHOD=AES-128,URI=\"key.bin\"\n#EXTINF:1,\nseg7.cmfa\n#EXTINF:1,\nseg8.cmfa\n#EXT-X-KEY:METHOD=NONE\n#EXTINF:1,\nseg9.cmfa\n#EXT-X-ENDLIST\n";
    let parsed = parse_media_playlist("http://127.0.0.1/a/audio.m3u8", playlist, &options).unwrap();
    assert_eq!(parsed.init.url, "http://127.0.0.1/a/init.cmfa");
    let init_key = parsed.init.encryption.as_ref().unwrap();
    assert_eq!(init_key.key_url, "http://127.0.0.1/a/key.bin");
    assert_eq!(init_key.iv, (0u8..16).collect::<Vec<u8>>());
    assert_eq!(parsed.segments.len(), 3);
    assert_eq!(parsed.segments[0].url, "http://127.0.0.1/a/seg7.cmfa");
    assert_eq!(
        parsed.segments[0].encryption.as_ref().unwrap().iv,
        sequence_iv(7).to_vec()
    );
    assert_eq!(
        parsed.segments[1].encryption.as_ref().unwrap().iv,
        sequence_iv(8).to_vec()
    );
    assert!(parsed.segments[2].encryption.is_none());

    for bad in [
        &b"#EXTM3U\n#EXT-X-MAP:URI=\"i\"\n#EXTINF:1,\ns\n"[..],
        &b"#EXTM3U\n#EXTINF:1,\ns\n#EXT-X-ENDLIST\n"[..],
        &b"#EXTM3U\n#EXT-X-MAP:URI=\"i\"\n#EXT-X-DISCONTINUITY\n#EXTINF:1,\ns\n#EXT-X-ENDLIST\n"[..],
        &b"#EXTM3U\n#EXT-X-KEY:METHOD=AES-128,URI=\"k\"\n#EXT-X-MAP:URI=\"i\"\n#EXTINF:1,\ns\n#EXT-X-ENDLIST\n"[..],
        &b"#EXTM3U\n#EXT-X-KEY:METHOD=SAMPLE-AES,URI=\"k\"\n"[..],
        &b"#EXTM3U\n#EXT-X-MAP:URI=\"i\"\ns\n#EXT-X-ENDLIST\n"[..],
    ] {
        assert_eq!(
            parse_media_playlist("http://127.0.0.1/a/audio.m3u8", bad, &options)
                .err()
                .unwrap()
                .kind(),
            NicoNicoPlaybackErrorKind::InvalidPlaylist
        );
    }
}

#[test]
fn decryption_round_trips_an_encrypted_resource() {
    let key = [0x2b_u8; 16];
    let iv = [0x11_u8; 16];
    let message = b"segment payload bytes";
    let mut buffer = [0_u8; 32];
    buffer[..message.len()].copy_from_slice(message);
    let ciphertext = cbc::Encryptor::<aes::Aes128>::new(&key.into(), &iv.into())
        .encrypt_padded::<Pkcs7>(&mut buffer, message.len())
        .unwrap()
        .to_vec();
    assert_ne!(&ciphertext[..message.len()], &message[..]);
    assert_eq!(
        decrypt_aes128_cbc(ciphertext.clone(), key, iv).unwrap(),
        message.to_vec()
    );
    assert!(decrypt_aes128_cbc(ciphertext, [0; 16], iv).map(|p| p != message.to_vec()).unwrap_or(true));
    assert!(decrypt_aes128_cbc(Vec::new(), [0; 16], [0; 16]).is_err());
    assert!(decrypt_aes128_cbc(vec![0; 17], [1; 16], [2; 16]).is_err());
}

#[test]
fn formats_and_watch_data() {
    let options = NicoNicoSourceOptions::default_options();
    let formats = vec![
        NicoNicoFormat { is_available: true, id: Some("v-high".to_owned()), bit_rate: 900 },
        NicoNicoFormat { is_available: false, id: None, bit_rate: 10 },
        NicoNicoFormat { is_available: true, id: Some("v-low".to_owned()), bit_rate: 300 },
        NicoNicoFormat { is_available: true, id: Some("v-tie".to_owned()), bit_rate: 300 },
    ];
    assert_eq!(select_format(&formats, true, &options).unwrap().as_deref(), Some("v-low"));
    assert_eq!(select_format(&formats, false, &options).unwrap().as_deref(), Some("v-high"));
    assert_eq!(select_format(&[], true, &options).unwrap(), None);
    let broken = vec![NicoNicoFormat { is_available: true, id: None, bit_rate: 1 }];
    assert_eq!(
        select_format(&broken, true, &options).unwrap_err().kind(),
        NicoNicoErrorKind::InvalidResponse
    );

    let route = NicoNicoRoute { video_id: "sm9".to_owned() };
    let data = NicoNicoWatchData {
        status: Some(200),
        video_id: Some("sm9".to_owned()),
        title: Some("Title".to_owned()),
        author: None,
        duration_seconds: Some(320),
        artwork_url: Some("https://example.test/a.jpg".to_owned()),
    };
    let track = parse_watch(&data, &route, true, &options).unwrap();
    assert_eq!(track.info.title, "Title");
    assert_eq!(track.info.author, "Unknown artist");
    assert_eq!(track.info.uri.as_deref(), Some("https://www.nicovideo.jp/watch/sm9"));
    assert!(track.playback_available);
    let mut wrong = data.clone();
    wrong.video_id = Some("sm10".to_owned());
    assert!(parse_watch(&wrong, &route, false, &options).is_err());
    let mut long = data.clone();
    long.duration_seconds = Some(25 * 3600);
    assert!(parse_watch(&long, &route, false, &options).is_err());
}

#[test]
fn assembly_is_bounded_and_keys_are_cached() {
    let mut assembled = vec![1, 2];
    append_decoded(&mut assembled, &[3, 4], 4).unwrap();
    assert_eq!(assembled, vec![1, 2, 3, 4]);
    assert!(append_decoded(&mut assembled, &[5], 4).is_err());
    assert_eq!(assembled, vec![1, 2, 3, 4]);

    let mut keys = KeyCache::new();
    assert_eq!(keys.get("https://k"), None);
    keys.insert("https://k", [7; 16]);
    assert_eq!(keys.get("https://k"), Some([7; 16]));
    assert_eq!(keys.len(), 1);

    assert!(check_playback_format(Container::Mp4, Codec::HeAacV2).is_ok());
    assert!(check_playback_format(Container::Mp4, Codec::Opus).is_err());
    assert!(check_playback_format(Container::Adts, Codec::AacLc).is_err());
}
