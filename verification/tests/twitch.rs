use mantle_media::hls::{HlsMasterPlaylist, HlsVariant};
use mantle_media::http_policy::HttpNetworkAccess;
use mantle_media::twitch::{
    parse_helix_stream, parse_playback_token, route_twitch_identifier, select_lowest_variant,
    validate_base_url, TwitchAuthentication, TwitchErrorKind, TwitchPlaybackScheme, TwitchRoute,
    TwitchSourceManager, TwitchSourceOptions, TwitchStreamData, TwitchTokenData,
};

#[test]
fn routing_normalizes_current_mobile_and_go_hosts() {
    let options = TwitchSourceOptions::default_options();
    assert_eq!(
        route_twitch_identifier("https://m.twitch.tv/TwitchDev", &options),
        Some(TwitchRoute {
            channel: "twitchdev".to_owned(),
        })
    );
}

#[test]
fn routing_rejects_reserved_and_malformed_paths() {
    let options = TwitchSourceOptions::default_options();
    assert_eq!(
        route_twitch_identifier("go.twitch.tv/some_channel/?ref=x", &options).map(|r| r.channel),
        Some("some_channel".to_owned())
    );
    for bad in [
        "https://www.twitch.tv/directory",
        "https://www.twitch.tv/a/b",
        "https://www.twitch.tv/",
        "https://www.twitch.tv/channel#x",
        "https://user@twitch.tv/channel",
        "https://twitch.tv:8443/channel",
        "https://example.com/channel",
        "https://www.twitch.tv/abcdefghijklmnopqrstuvwxyz",
    ] {
        assert_eq!(route_twitch_identifier(bad, &options), None, "{bad}");
    }
    let route = TwitchRoute { channel: "dev".to_owned() };
    assert_eq!(route.canonical_url(), "https://www.twitch.tv/dev");
}

#[test]
fn credentials_and_options_validate() {
    let auth = TwitchAuthentication::with_device_id(
        "client".to_owned(),
        "token".to_owned(),
        Some("device".to_owned()),
    )
    .unwrap();
    assert!(auth.device_id_configured());
    assert_eq!(
        TwitchAuthentication::new("client".to_owned(), String::new())
            .err()
            .unwrap()
            .kind(),
        TwitchErrorKind::InvalidAuthentication
    );
    let options = TwitchSourceOptions::default_options();
    assert!(options.validate().is_ok());
    let mut options_http = options.clone();
    assert!(validate_base_url("http://127.0.0.1/helix", &options_http.http).is_err());
    options_http.http.network_access = HttpNetworkAccess::AllowPrivateNetworks;
    assert!(validate_base_url("http://127.0.0.1/helix", &options_http.http).is_ok());
    assert!(validate_base_url("https://api.twitch.tv/helix?x", &options.http).is_err());
    assert!(TwitchSourceManager::new(options, auth, 10, 10).is_ok());
}

fn stream(kind: &str, login: &str) -> TwitchStreamData {
    TwitchStreamData {
        stream_type: Some(kind.to_owned()),
        user_login: Some(login.to_owned()),
        title: Some("Live".to_owned()),
        user_name: None,
        thumbnail_url: Some("https://t/{width}x{height}.jpg".to_owned()),
    }
}

#[test]
fn helix_streams_describe_live_channels() {
    let options = TwitchSourceOptions::default_options();
    let route = TwitchRoute { channel: "dev".to_owned() };
    let track = parse_helix_stream(&Some(vec![stream("live", "Dev")]), &route, &options).unwrap();
    assert_eq!(track.info.identifier, "https://www.twitch.tv/dev");
    assert_eq!(track.info.author, "dev");
    assert_eq!(track.info.artwork_url.as_deref(), Some("https://t/440x248.jpg"));
    assert!(track.info.is_stream);
    assert_eq!(
        parse_helix_stream(&Some(vec![]), &route, &options).unwrap_err().kind(),
        TwitchErrorKind::Offline
    );
    assert_eq!(
        parse_helix_stream(&Some(vec![stream("rerun", "dev")]), &route, &options)
            .unwrap_err()
            .kind(),
        TwitchErrorKind::Offline
    );
    assert_eq!(
        parse_helix_stream(&Some(vec![stream("live", "other")]), &route, &options)
            .unwrap_err()
            .kind(),
        TwitchErrorKind::InvalidResponse
    );
    assert_eq!(
        parse_helix_stream(&None, &route, &options).unwrap_err().kind(),
        TwitchErrorKind::InvalidResponse
    );
}

#[test]
fn playback_tokens_build_signed_usher_urls() {
    let options = TwitchSourceOptions::default_options();
    let token = TwitchTokenData {
        has_errors: false,
        token_present: true,
        value: Some("{\"expires\":1700000000,\"channel\":\"dev\"}".to_owned()),
        signature: Some("abc123".to_owned()),
    };
    let url = parse_playback_token(&token, "dev", &options).unwrap();
    assert_eq!(
        url.as_str(),
        "https://usher.ttvnw.net/api/channel/hls/dev.m3u8?token=%7B%22expires%22%3A1700000000%2C%22channel%22%3A%22dev%22%7D&sig=abc123&allow_source=true&allow_spectre=true&allow_audio_only=true&player_backend=html5&expgroup=regular"
    );
    let mut without_expiry = token.clone();
    without_expiry.value = Some("{\"channel\":\"dev\"}".to_owned());
    assert_eq!(
        parse_playback_token(&without_expiry, "dev", &options).err().unwrap().kind(),
        TwitchErrorKind::InvalidResponse
    );
    let mut offline = token.clone();
    offline.token_present = false;
    assert_eq!(
        parse_playback_token(&offline, "dev", &options).err().unwrap().kind(),
        TwitchErrorKind::Offline
    );
    let mut private = options.clone();
    private.usher_base_url = "https://evil.test/hls".to_owned();
    assert!(parse_playback_token(&token, "dev", &private).is_err());
    private.playback_scheme = TwitchPlaybackScheme::HttpForPrivateNetworks;
    assert!(parse_playback_token(&token, "dev", &private).is_ok());
}

#[test]
fn the_lowest_bandwidth_variant_is_chosen() {
    let master = HlsMasterPlaylist {
        variants: vec![
            HlsVariant { uri: "https://a/none".to_owned(), bandwidth: None },
            HlsVariant { uri: "https://a/high".to_owned(), bandwidth: Some(900) },
            HlsVariant { uri: "https://a/low".to_owned(), bandwidth: Some(100) },
            HlsVariant { uri: "https://a/low2".to_owned(), bandwidth: Some(100) },
        ],
    };
    assert_eq!(select_lowest_variant(&master).as_deref(), Some("https://a/low"));
    assert_eq!(select_lowest_variant(&HlsMasterPlaylist { variants: vec![] }), None);
}

#[test]
fn canonical_urls_route_back_to_their_channel() {
    let options = TwitchSourceOptions::default_options();
    for identifier in ["https://m.twitch.tv/TwitchDev", "go.twitch.tv/some_channel/?ref=x", "twitch.tv/a_1"] {
        let route = route_twitch_identifier(identifier, &options).unwrap();
        let canonical = route.canonical_url();
        assert_eq!(canonical, format!("https://www.twitch.tv/{}", route.channel));
        assert_eq!(route_twitch_identifier(&canonical, &options), Some(route.clone()));
    }
}
