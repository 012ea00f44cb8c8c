use mantle_media::duration::Duration;
use mantle_media::vimeo::{
    parse_api_track, parse_playback_url, parse_public_track, route_vimeo_identifier,
    select_progressive, VimeoApiPlay, VimeoApiVideo, VimeoAuthentication, VimeoErrorKind,
    VimeoHlsFiles, VimeoId, VimeoPlaybackKind, VimeoPlaybackScheme, VimeoProgressive,
    VimeoPublicFiles, VimeoPublicVideo, VimeoRoute, VimeoSourceManager, VimeoSourceOptions,
};

#[test]
fn routing_keeps_unlisted_hashes_but_discards_tracking_queries() {
    let options = VimeoSourceOptions::default_options();
    assert_eq!(
        route_vimeo_identifier("https://player.vimeo.com/video/123?h=abc123", &options),
        Some(VimeoRoute {
            video_id: "123".to_owned(),
            unlisted_hash: Some("abc123".to_owned()),
        })
    );
}

#[test]
fn routing_accepts_public_pages_and_rejects_others() {
    let options = VimeoSourceOptions::default_options();
    assert_eq!(
        route_vimeo_identifier("vimeo.com/76979871?utm_source=x", &options),
        Some(VimeoRoute { video_id: "76979871".to_owned(), unlisted_hash: None })
    );
    assert_eq!(
        route_vimeo_identifier("https://www.vimeo.com/123/deadbeef", &options),
        Some(VimeoRoute { video_id: "123".to_owned(), unlisted_hash: Some("deadbeef".to_owned()) })
    );
    for bad in [
        "https://vimeo.com/abc",
        "https://vimeo.com/123/a-b",
        "https://vimeo.com/1/2/3",
        "https://player.vimeo.com/123",
        "https://vimeo.com/123#t=1",
        "https://evil.test/123",
        "https://vimeo.com/123?h=not-valid",
    ] {
        assert_eq!(route_vimeo_identifier(bad, &options), None, "{bad}");
    }
    let route = VimeoRoute { video_id: "1".to_owned(), unlisted_hash: Some("ab".to_owned()) };
    assert_eq!(route.canonical_url(), "https://vimeo.com/1/ab");
}

#[test]
fn authentication_and_options() {
    assert!(VimeoAuthentication::new("token".to_owned()).is_ok());
    assert_eq!(
        VimeoAuthentication::new("a b".to_owned()).err().unwrap().kind(),
        VimeoErrorKind::InvalidAuthentication
    );
    let options = VimeoSourceOptions::default_options();
    assert!(options.validate().is_ok());
    let mut private = options.clone();
    private.playback_scheme = VimeoPlaybackScheme::HttpForPrivateNetworks;
    assert!(private.validate().is_err());
    assert!(VimeoSourceManager::new(options, 10, 10).is_ok());
}

fn progressive(mime: &str, url: &str, height: Option<u64>) -> VimeoProgressive {
    VimeoProgressive { mime_type: Some(mime.to_owned()), url: Some(url.to_owned()), height }
}

#[test]
fn audio_then_lowest_video_progressive_files_win() {
    let options = VimeoSourceOptions::default_options();
    let candidates = vec![
        progressive("video/mp4", "https://vod.akamaized.net/720.mp4", Some(720)),
        progressive("video/mp4", "https://vod.akamaized.net/360.mp4", Some(360)),
        progressive("video/webm", "https://vod.akamaized.net/x.webm", Some(1)),
    ];
    let chosen = select_progressive(&candidates, &options).unwrap().unwrap();
    assert_eq!(chosen.as_str(), "https://vod.akamaized.net/360.mp4");
    assert_eq!(chosen.kind(), VimeoPlaybackKind::ProgressiveMp4);
    let mut with_audio = candidates.clone();
    with_audio.push(progressive("audio/mp4", "https://a.vimeocdn.com/a.mp4", None));
    assert_eq!(
        select_progressive(&with_audio, &options).unwrap().unwrap().mime_type(),
        "audio/mp4"
    );
    let bad = vec![progressive("video/mp4", "https://evil.test/x.mp4", Some(1))];
    assert!(select_progressive(&bad, &options).is_err());
    assert!(parse_playback_url("https://vimeo.com/x", VimeoPlaybackKind::Hls, "m", &options).is_ok());
    assert!(parse_playback_url("http://vimeo.com/x", VimeoPlaybackKind::Hls, "m", &options).is_err());
}

#[test]
fn public_and_api_tracks() {
    let options = VimeoSourceOptions::default_options();
    let route = VimeoRoute { video_id: "123".to_owned(), unlisted_hash: None };
    let video = Some(VimeoPublicVideo {
        id: Some(VimeoId::Number(123)),
        title: Some("Clip".to_owned()),
        owner_name: None,
        duration: Some(Duration::from_secs(61)),
        thumbnail_url: None,
    });
    let files = Some(VimeoPublicFiles {
        progressive: Some(vec![]),
        hls: Some(VimeoHlsFiles {
            default_cdn: Some("akfire".to_owned()),
            cdns: Some(vec![
                ("fastly".to_owned(), Some("https://f.vimeocdn.com/a.m3u8".to_owned())),
                ("akfire".to_owned(), Some("https://k.akamaized.net/b.m3u8".to_owned())),
            ]),
        }),
    });
    let track = parse_public_track(&video, &files, &route, &options).unwrap();
    assert_eq!(track.info.author, "Unknown artist");
    assert_eq!(track.info.uri.as_deref(), Some("https://vimeo.com/123"));
    let playback = track.playback.as_ref().unwrap();
    assert_eq!(playback.as_str(), "https://k.akamaized.net/b.m3u8");
    assert_eq!(playback.kind(), VimeoPlaybackKind::Hls);

    let api = VimeoApiVideo {
        uri: Some("/videos/123".to_owned()),
        name: Some("Clip".to_owned()),
        user_name: Some("Owner".to_owned()),
        duration: Some(Duration::from_secs(10)),
        link: None,
        base_link: None,
        play: Some(VimeoApiPlay { progressive: None, hls_link: None }),
    };
    let track = parse_api_track(&api, &route, &options).unwrap();
    assert_eq!(track.info.author, "Owner");
    assert!(track.playback.is_none());
    let mut wrong = api.clone();
    wrong.uri = Some("/videos/124".to_owned());
    assert!(parse_api_track(&wrong, &route, &options).is_err());
}
