use mantle_media::bandcamp::{
    page_base, parse_artwork, parse_page, route_bandcamp_identifier, BandcampArtId,
    BandcampPageData, BandcampRoute, BandcampSourceItem, BandcampSourceManager,
    BandcampSourceOptions, BandcampTrackData,
};
use mantle_media::duration::Duration;
use mantle_media::source::{decode_probe, encode_probe, MediaProbe};

fn entry(link: &str) -> BandcampTrackData {
    BandcampTrackData {
        title: Some("Song".to_owned()),
        artist: None,
        duration: Some(Duration::from_secs(100)),
        title_link: Some(link.to_owned()),
        mp3_128: Some("https://t4.bcbits.com/stream/abc".to_owned()),
    }
}

fn page(kind: &str, entries: Vec<BandcampTrackData>) -> BandcampPageData {
    BandcampPageData {
        item_type: Some(kind.to_owned()),
        current_type: None,
        artist: Some("Artist".to_owned()),
        art_id: BandcampArtId::Number(123),
        trackinfo: Some(entries),
        current_isrc: Some("USX9P1234567".to_owned()),
        current_title: Some("Album".to_owned()),
    }
}

#[test]
fn track_pages_become_tracks_with_canonical_identifiers() {
    let options = BandcampSourceOptions::default_options();
    let route = route_bandcamp_identifier("https://artist.bandcamp.com/track/song", &options).unwrap();
    let item = parse_page(&page("track", vec![entry("/track/song")]), &route, &options).unwrap();
    let BandcampSourceItem::Track(track) = item else {
        panic!("expected a track");
    };
    assert_eq!(track.info.identifier, "https://artist.bandcamp.com/track/song");
    assert_eq!(track.info.author, "Artist");
    assert_eq!(track.info.isrc.as_deref(), Some("USX9P1234567"));
    assert_eq!(
        track.info.artwork_url.as_deref(),
        Some("https://f4.bcbits.com/img/a0000000123_1.png")
    );
    assert_eq!(track.playback.unwrap().as_str(), "https://t4.bcbits.com/stream/abc");
    assert!(parse_page(&page("album", vec![entry("/track/song")]), &route, &options).is_err());
    assert!(parse_page(
        &page("track", vec![entry("/track/song"), entry("/track/other")]),
        &route,
        &options
    )
    .is_err());
    assert!(parse_page(&page("track", vec![entry("/album/song")]), &route, &options).is_err());
    let mut long = entry("/track/song");
    long.duration = Some(Duration::from_hours(25));
    assert!(parse_page(&page("track", vec![long]), &route, &options).is_err());
}

#[test]
fn album_pages_become_playlists() {
    let options = BandcampSourceOptions::default_options();
    let route = BandcampRoute::Album("https://artist.bandcamp.com/album/record".to_owned());
    let item = parse_page(
        &page("album", vec![entry("/track/one"), entry("/track/two")]),
        &route,
        &options,
    )
    .unwrap();
    let BandcampSourceItem::Playlist(playlist) = item else {
        panic!("expected an album");
    };
    assert_eq!(playlist.name, "Album");
    assert_eq!(playlist.tracks.len(), 2);
    assert_eq!(playlist.tracks[1].info.identifier, "https://artist.bandcamp.com/track/two");
    assert_eq!(playlist.tracks[0].info.isrc, None);
    assert_eq!(playlist.author.as_deref(), Some("Artist"));
    assert_eq!(playlist.uri.as_deref(), Some("https://artist.bandcamp.com/album/record"));
}

#[test]
fn artwork_and_page_base() {
    assert_eq!(parse_artwork(&BandcampArtId::Absent, 100).unwrap(), None);
    assert_eq!(
        parse_artwork(&BandcampArtId::Text("12345678901".to_owned()), 100).unwrap().as_deref(),
        Some("https://f4.bcbits.com/img/a12345678901_1.png")
    );
    assert!(parse_artwork(&BandcampArtId::Text("12a".to_owned()), 100).is_err());
    assert!(parse_artwork(&BandcampArtId::Other, 100).is_err());
    assert!(parse_artwork(&BandcampArtId::Number(1), 10).is_err());
    assert_eq!(page_base("https://artist.bandcamp.com/track/x").unwrap(), "https://artist.bandcamp.com");
}

#[test]
fn manager_routes_and_rebuilds_tracks() {
    let mut options = BandcampSourceOptions::default_options();
    let manager = BandcampSourceManager::new(options.clone(), 10, 10).unwrap();
    assert_eq!(
        manager.page_endpoint("https://artist.bandcamp.com/track/song").unwrap(),
        "https://artist.bandcamp.com/track/song"
    );
    assert!(manager.track_route("https://artist.bandcamp.com/album/x").is_err());
    options.page_origin_override = Some("http://127.0.0.1:8080/".to_owned());
    options.http.network_access = mantle_media::http_policy::HttpNetworkAccess::AllowPrivateNetworks;
    let replay = BandcampSourceManager::new(options, 10, 10).unwrap();
    assert_eq!(
        replay.page_endpoint("https://artist.bandcamp.com/track/song").unwrap(),
        "http://127.0.0.1:8080/track/song"
    );
}

#[test]
fn probe_records_round_trip() {
    for probe in [
        MediaProbe::Wave,
        MediaProbe::MatroskaWebM,
        MediaProbe::Mp4,
        MediaProbe::Flac,
        MediaProbe::Ogg,
        MediaProbe::Mp3,
        MediaProbe::Adts,
        MediaProbe::HlsOuter,
    ] {
        let record = encode_probe(probe).unwrap();
        assert_eq!(decode_probe(&record).unwrap(), probe);
    }
}
