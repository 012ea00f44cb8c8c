use mantle_media::soundcloud::{
    append_client_id, artwork, check_transcoding, parse_playback, parse_resolved, parse_search,
    parse_track, route_soundcloud_identifier, SoundCloudAccess, SoundCloudAuthentication,
    SoundCloudErrorKind, SoundCloudId, SoundCloudResolved, SoundCloudRoute,
    SoundCloudSourceItem, SoundCloudSourceManager, SoundCloudSourceOptions, SoundCloudTrackData,
    SoundCloudTranscoding,
};

#[test]
fn routes_and_rejects_strict_inputs() {
    let options = SoundCloudSourceOptions::default_options();
    assert_eq!(
        route_soundcloud_identifier("scsearch: architects", &options),
        Some(SoundCloudRoute::Search("architects".into()))
    );
    assert_eq!(
        route_soundcloud_identifier("https://soundcloud.com/fixture/animals", &options),
        Some(SoundCloudRoute::Resolve(
            "https://soundcloud.com/fixture/animals".into()
        ))
    );
    assert_eq!(
        route_soundcloud_identifier("https://token@soundcloud.com/fixture/animals", &options),
        None
    );
    assert_eq!(
        route_soundcloud_identifier("https://soundcloud.test/fixture/animals", &options),
        None
    );
    assert_eq!(route_soundcloud_identifier("scsearch:   ", &options), None);
}

#[test]
fn routing_normalizes_scheme_query_and_slashes() {
    let mut options = SoundCloudSourceOptions::default_options();
    assert_eq!(
        route_soundcloud_identifier("www.soundcloud.com/a/b/?in=x", &options),
        Some(SoundCloudRoute::Resolve("https://www.soundcloud.com/a/b".into()))
    );
    assert_eq!(
        route_soundcloud_identifier("http://on.soundcloud.com/xyz", &options),
        Some(SoundCloudRoute::Resolve("https://on.soundcloud.com/xyz".into()))
    );
    assert_eq!(route_soundcloud_identifier("https://soundcloud.com/a#b", &options), None);
    assert_eq!(route_soundcloud_identifier("https://soundcloud.com/", &options), None);
    assert_eq!(route_soundcloud_identifier("https://soundcloud.com/a%20b", &options), None);
    options.allow_search = false;
    assert_eq!(route_soundcloud_identifier("scsearch:x", &options), None);
}

#[test]
fn credentials_are_header_safe() {
    let auth = SoundCloudAuthentication::with_oauth("client".to_owned(), Some("token".to_owned()))
        .unwrap();
    assert_eq!(auth.client_id(), "client");
    assert!(auth.oauth_configured());
    assert!(!SoundCloudAuthentication::new("client".to_owned()).unwrap().oauth_configured());
    for bad in ["", "a b", "caf\u{e9}"] {
        assert_eq!(
            SoundCloudAuthentication::new(bad.to_owned()).err().unwrap().kind(),
            SoundCloudErrorKind::InvalidAuthentication
        );
    }
    assert!(SoundCloudAuthentication::new("x".repeat(257)).is_err());
    assert!(SoundCloudAuthentication::with_oauth("c".to_owned(), Some(String::new())).is_err());
}

fn transcoding(url: &str, protocol: &str, mime: &str) -> SoundCloudTranscoding {
    SoundCloudTranscoding {
        url: Some(url.to_owned()),
        has_format: true,
        protocol: Some(protocol.to_owned()),
        mime_type: Some(mime.to_owned()),
    }
}

#[test]
fn progressive_mpeg_transcodings_are_preferred() {
    let options = SoundCloudSourceOptions::default_options();
    let list = Some(vec![
        transcoding("https://a/hls", "hls", "audio/mpeg"),
        transcoding("https://a/prog", "progressive", "audio/mpeg"),
    ]);
    let chosen = parse_playback(&list, &options).unwrap().unwrap();
    assert_eq!(chosen.as_str(), "https://a/prog");
    assert_eq!(chosen.protocol(), "progressive");
    let only_hls = Some(vec![transcoding("https://a/hls", "hls", "audio/ogg")]);
    assert_eq!(parse_playback(&only_hls, &options).unwrap().unwrap().as_str(), "https://a/hls");
    assert!(parse_playback(&None, &options).unwrap().is_none());
    let mut broken = transcoding("https://a/x", "progressive", "audio/mpeg");
    broken.has_format = false;
    assert!(parse_playback(&Some(vec![broken]), &options).is_err());
}

#[test]
fn client_ids_are_form_encoded() {
    let options = SoundCloudSourceOptions::default_options();
    let list = Some(vec![transcoding("https://a/p?x=1", "progressive", "audio/mpeg")]);
    let playback = parse_playback(&list, &options).unwrap().unwrap();
    let url = append_client_id(&playback, "a b&c*", 1024).unwrap();
    assert_eq!(url.as_str(), "https://a/p?x=1&client_id=a+b%26c*");
    let list = Some(vec![transcoding("https://a/p", "progressive", "audio/mpeg")]);
    let playback = parse_playback(&list, &options).unwrap().unwrap();
    assert_eq!(
        append_client_id(&playback, "id", 1024).unwrap().as_str(),
        "https://a/p?client_id=id"
    );
    assert!(append_client_id(&playback, "id", 10).is_err());
    assert!(check_transcoding(&playback).is_ok());
}

fn track(id: SoundCloudId, access: Option<&str>) -> SoundCloudTrackData {
    SoundCloudTrackData {
        id: Some(id),
        title: Some("Animals".to_owned()),
        username: Some("Fixture".to_owned()),
        duration_millis: Some(1500),
        permalink_url: None,
        access: access.map(str::to_owned),
        artwork_url: Some("https://i1.sndcdn.com/artworks-1-large.jpg".to_owned()),
        isrc: None,
        transcodings: None,
    }
}

#[test]
fn tracks_and_searches() {
    let options = SoundCloudSourceOptions::default_options();
    let parsed = parse_track(&track(SoundCloudId::Number(1_234_567), None), "https://soundcloud.com/f/a", &options)
        .unwrap();
    assert_eq!(parsed.info.identifier, "1234567");
    assert_eq!(parsed.info.uri.as_deref(), Some("https://soundcloud.com/f/a"));
    assert_eq!(
        parsed.info.artwork_url.as_deref(),
        Some("https://i1.sndcdn.com/artworks-1-t500x500.jpg")
    );
    assert_eq!(parsed.info.duration.as_nanos(), 1_500_000_000);
    assert_eq!(parsed.access, SoundCloudAccess::Playable);
    assert!(parse_track(&track(SoundCloudId::Text("7".to_owned()), Some("weird")), "u", &options).is_err());

    let collection = Some(vec![
        track(SoundCloudId::Number(1), Some("blocked")),
        track(SoundCloudId::Number(2), Some("preview")),
    ]);
    match parse_search(&collection, "animals", &options).unwrap() {
        Some(SoundCloudSourceItem::Playlist(p)) => {
            assert_eq!(p.name, "SoundCloud search: animals");
            assert_eq!(p.tracks.len(), 1);
            assert_eq!(p.tracks[0].access, SoundCloudAccess::Preview);
            assert!(p.is_search_result);
        }
        _ => panic!("expected a search playlist"),
    }
    let blocked = Some(vec![track(SoundCloudId::Number(1), Some("blocked"))]);
    assert!(parse_search(&blocked, "x", &options).unwrap().is_none());
    assert!(parse_search(&None, "x", &options).is_err());

    assert_eq!(
        parse_resolved(&SoundCloudResolved::Error, "u", &options).unwrap_err().kind(),
        SoundCloudErrorKind::Unavailable
    );
    assert_eq!(
        parse_resolved(&SoundCloudResolved::Other, "u", &options).unwrap_err().kind(),
        SoundCloudErrorKind::InvalidResponse
    );
    let mut no_artwork = None;
    assert_eq!(artwork(&no_artwork, &options).unwrap(), None);
    no_artwork = Some(String::new());
    assert!(artwork(&no_artwork, &options).is_err());
}

#[test]
fn playback_resolution_respects_access() {
    let options = SoundCloudSourceOptions::default_options();
    let auth = SoundCloudAuthentication::new("client".to_owned()).unwrap();
    let mut manager = SoundCloudSourceManager::new(options.clone(), auth, 10, 10).unwrap();
    let mut data = track(SoundCloudId::Number(1), None);
    data.transcodings = Some(vec![transcoding("https://a/p", "progressive", "audio/mpeg")]);
    let playable = parse_track(&data, "u", &options).unwrap();
    let url = manager.resolve_track_playback(&playable, false).unwrap().unwrap();
    assert_eq!(url.as_str(), "https://a/p?client_id=client");
    assert_eq!(
        manager.resolve_track_playback(&playable, true).unwrap_err().kind(),
        SoundCloudErrorKind::Cancelled
    );
    data.access = Some("preview".to_owned());
    let preview = parse_track(&data, "u", &options).unwrap();
    assert_eq!(
        manager.resolve_track_playback(&preview, false).unwrap_err().kind(),
        SoundCloudErrorKind::PreviewOnly
    );
    manager.shutdown();
    assert_eq!(
        manager.resolve_track_playback(&playable, false).unwrap_err().kind(),
        SoundCloudErrorKind::Shutdown
    );
}

#[test]
fn api_requests_encode_their_queries_and_carry_credentials() {
    let options = SoundCloudSourceOptions::default_options();
    let auth =
        SoundCloudAuthentication::with_oauth("client-1".to_owned(), Some("token".to_owned()))
            .unwrap();
    let manager = SoundCloudSourceManager::new(options.clone(), auth, 10, 10).unwrap();
    let resolve = manager.resolve_request("https://soundcloud.com/a/b").unwrap();
    assert_eq!(
        resolve.url(),
        "https://api-v2.soundcloud.com/resolve?url=https%3A%2F%2Fsoundcloud.com%2Fa%2Fb&client_id=client-1"
    );
    assert_eq!(
        resolve.headers(),
        &vec![
            ("accept".to_owned(), "application/json".to_owned()),
            ("user-agent".to_owned(), "Mantle-SoundCloud/1".to_owned()),
            ("authorization".to_owned(), "OAuth token".to_owned()),
        ]
    );
    let search = manager.search_request("a b").unwrap();
    assert_eq!(
        search.url(),
        "https://api-v2.soundcloud.com/search/tracks?q=a+b&limit=200&offset=0&client_id=client-1"
    );
    assert_eq!(
        manager.search_request("").err().unwrap().kind(),
        SoundCloudErrorKind::InvalidOptions
    );
}
