use mantle_media::http_policy::HttpNetworkAccess;
use mantle_media::media::{Codec, Container};
use mantle_media::source::SourceRegistryError;
use mantle_media::track::TrackInfo;
use mantle_media::duration::Duration;
use mantle_media::yandex_download_info::{
    download_info_field, parse_download_info_events, parse_download_info_xml, DownloadInfoField,
    XmlEvent,
};
use mantle_media::yandex_music::{
    build_signed_playback_url, check_playback_format, parse_album_response, parse_artist_response,
    parse_artists, parse_collection_entries, parse_cover_uri, parse_download_candidates,
    parse_playlist_response, parse_recommendations_response, parse_search_response,
    parse_track_response, route_yandex_music_identifier, validate_download_info_origin,
    YandexAlbum, YandexArtistDetails, YandexDownloadCandidate, YandexDownloadInfo,
    YandexMusicAuthentication, YandexMusicErrorKind, YandexMusicPlaybackErrorKind,
    YandexMusicPlaybackScheme, YandexMusicPlaylistKind, YandexMusicRoute, YandexMusicSourceItem,
    YandexMusicSourceManager, YandexMusicSourceOptions, YandexPlaylist, YandexPlaylistKindValue,
    YandexPlaylistOwner, YandexTrackItem,
};

fn options() -> YandexMusicSourceOptions {
    YandexMusicSourceOptions::default_options()
}

fn item(id: &str, title: &str, available: bool) -> YandexTrackItem {
    YandexTrackItem {
        available,
        id: id.to_owned(),
        title: title.to_owned(),
        duration_ms: 1500,
        artists: vec!["A".to_owned(), "B".to_owned()],
        cover_uri: None,
        og_image: None,
    }
}

fn manager() -> YandexMusicSourceManager {
    let auth = YandexMusicAuthentication::new("token".to_owned()).unwrap();
    YandexMusicSourceManager::new(options(), auth, 10, 10).unwrap()
}

#[test]
fn routes_search_recommendations_and_pages() {
    let options = options();
    assert_eq!(
        route_yandex_music_identifier("ymsearch:  daft punk ", &options),
        Some(YandexMusicRoute::Search("daft punk".to_owned()))
    );
    assert_eq!(
        route_yandex_music_identifier("ymrec:123", &options),
        Some(YandexMusicRoute::Recommendations("123".to_owned()))
    );
    assert_eq!(
        route_yandex_music_identifier("https://music.yandex.ru/album/5/track/77?utm=1", &options),
        Some(YandexMusicRoute::Track {
            track_id: "77".to_owned(),
            album_id: Some("5".to_owned()),
            domain: "ru".to_owned(),
        })
    );
    assert_eq!(
        route_yandex_music_identifier("music.yandex.com/artist/9/tracks/", &options),
        Some(YandexMusicRoute::Artist { artist_id: "9".to_owned(), domain: "com".to_owned() })
    );
    assert_eq!(
        route_yandex_music_identifier("https://music.yandex.kz/users/a.b-c/playlists/3", &options),
        Some(YandexMusicRoute::Playlist {
            owner: Some("a.b-c".to_owned()),
            playlist_id: "3".to_owned(),
            domain: "kz".to_owned(),
        })
    );
    assert_eq!(route_yandex_music_identifier("https://music.yandex.de/track/1", &options), None);
    assert_eq!(route_yandex_music_identifier("https://u@music.yandex.ru/track/1", &options), None);
    assert_eq!(route_yandex_music_identifier("https://music.yandex.ru/track/1#x", &options), None);
    assert_eq!(route_yandex_music_identifier("ymsearch:   ", &options), None);
    assert_eq!(route_yandex_music_identifier("ymrec:12a", &options), None);
}

#[test]
fn candidates_pick_the_highest_mp3_bitrate() {
    let options = options();
    let candidates = vec![
        YandexDownloadCandidate {
            codec: "mp3".to_owned(),
            bitrate_in_kbps: 192,
            download_info_url: "https://storage.mds.yandex.net/a".to_owned(),
        },
        YandexDownloadCandidate {
            codec: "aac".to_owned(),
            bitrate_in_kbps: 256,
            download_info_url: "https://storage.mds.yandex.net/b".to_owned(),
        },
        YandexDownloadCandidate {
            codec: "mp3".to_owned(),
            bitrate_in_kbps: 320,
            download_info_url: "https://storage.mds.yandex.net/c".to_owned(),
        },
    ];
    let chosen = parse_download_candidates(&Some(candidates), &options).unwrap().unwrap();
    assert_eq!(chosen.bitrate_in_kbps, 320);
    assert_eq!(chosen.download_info_url, "https://storage.mds.yandex.net/c");
    assert_eq!(parse_download_candidates(&None, &options).unwrap(), None);
    assert!(validate_download_info_origin("https://storage.mds.yandex.net/c", &options).is_ok());
    assert!(validate_download_info_origin("https://evil.test/c", &options).is_err());
}

#[test]
fn signed_url_uses_the_md5_of_salt_path_and_secret() {
    let options = options();
    let download = YandexDownloadInfo {
        host: "s1.storage.yandex.net".to_owned(),
        path: "/get/track.mp3".to_owned(),
        timestamp: "12345".to_owned(),
        secret: "secret1".to_owned(),
    };
    let url = build_signed_playback_url(&download, 320, &options).unwrap();
    assert_eq!(
        url.as_str(),
        "https://s1.storage.yandex.net/get-mp3/f6bd789572596385f887be94d7d94cba/12345/get/track.mp3"
    );
    assert_eq!(url.bitrate_kbps(), 320);
    let mut bad = download.clone();
    bad.timestamp = "12a".to_owned();
    assert_eq!(
        build_signed_playback_url(&bad, 320, &options).err().unwrap().kind(),
        YandexMusicErrorKind::InvalidResponse
    );
    let mut bad_host = download;
    bad_host.host = "a/b".to_owned();
    assert!(build_signed_playback_url(&bad_host, 320, &options).is_err());
}

#[test]
fn covers_and_artists() {
    assert_eq!(
        parse_cover_uri("avatars.yandex.net/get/%%", 1024).unwrap(),
        "https://avatars.yandex.net/get/400x400"
    );
    assert!(parse_cover_uri("https://avatars.yandex.net/x", 1024).is_err());
    assert!(parse_cover_uri("a b", 1024).is_err());
    assert!(parse_cover_uri("a@b", 1024).is_err());
    assert_eq!(parse_artists(&vec![], 100).unwrap(), "Unknown");
    assert_eq!(parse_artists(&vec!["A".to_owned(), "B".to_owned()], 100).unwrap(), "A, B");
    assert!(parse_artists(&vec!["A".to_owned(), "".to_owned()], 100).is_err());
    assert!(parse_artists(&vec!["AB".to_owned(), "CD".to_owned()], 5).is_err());
}

#[test]
fn track_answers_need_exactly_one_matching_track() {
    let options = options();
    assert_eq!(parse_track_response(&vec![], "1", "ru", &options).unwrap(), None);
    let track = parse_track_response(&vec![item("1", "Song", true)], "1", "ru", &options)
        .unwrap()
        .unwrap();
    assert_eq!(track.info.title, "Song");
    assert_eq!(track.info.author, "A, B");
    assert_eq!(track.info.duration, Duration::from_millis(1500));
    assert_eq!(track.info.uri.as_deref(), Some("https://music.yandex.ru/track/1"));
    assert!(parse_track_response(&vec![item("2", "Song", true)], "1", "ru", &options).is_err());
    assert!(parse_track_response(
        &vec![item("1", "Song", true), item("1", "Song", true)],
        "1",
        "ru",
        &options
    )
    .is_err());
    assert_eq!(parse_track_response(&vec![item("1", "Song", false)], "1", "ru", &options).unwrap(), None);
}

#[test]
fn collections_skip_unavailable_tracks_and_bound_their_size() {
    let mut options = options();
    let tracks = parse_collection_entries(
        &vec![item("1", "One", true), item("2", "Two", false), item("3", "Three", true)],
        "com",
        &options,
    )
    .unwrap();
    assert_eq!(tracks.len(), 2);
    assert_eq!(tracks[1].info.identifier, "3");
    options.max_collection_tracks = 2;
    assert!(parse_collection_entries(
        &vec![item("1", "One", true), item("2", "Two", false), item("3", "Three", true)],
        "com",
        &options,
    )
    .is_err());
}

#[test]
fn albums_flatten_volumes_in_order() {
    let mut options = options();
    let album = YandexAlbum {
        title: "Album".to_owned(),
        artists: vec!["Band".to_owned()],
        volumes: vec![vec![item("1", "One", true)], vec![item("2", "Two", true)]],
        cover_uri: Some("avatars.yandex.net/%%".to_owned()),
        og_image: None,
    };
    let playlist = parse_album_response(&Some(album.clone()), "7", "by", &options).unwrap().unwrap();
    assert_eq!(playlist.name, "Album");
    assert_eq!(playlist.kind, YandexMusicPlaylistKind::Album);
    assert_eq!(playlist.tracks[0].info.identifier, "1");
    assert_eq!(playlist.tracks[1].info.identifier, "2");
    assert_eq!(playlist.uri.as_deref(), Some("https://music.yandex.by/album/7"));
    assert_eq!(playlist.author.as_deref(), Some("Band"));
    assert_eq!(playlist.artwork_url.as_deref(), Some("https://avatars.yandex.net/400x400"));
    assert_eq!(parse_album_response(&None, "7", "by", &options).unwrap(), None);
    options.max_collection_tracks = 1;
    assert!(parse_album_response(&Some(album), "7", "by", &options).is_err());
}

#[test]
fn artists_playlists_search_and_recommendations_are_named() {
    let options = options();
    let tracks = parse_collection_entries(&vec![item("1", "One", true)], "ru", &options).unwrap();
    let artist = parse_artist_response(
        &Some(YandexArtistDetails { name: "Band".to_owned(), cover_uri: None, og_image: None }),
        "4",
        "ru",
        tracks,
        &options,
    )
    .unwrap();
    assert_eq!(artist.name, "Band's Top Tracks");
    assert_eq!(artist.author.as_deref(), Some("Band"));
    assert_eq!(artist.uri.as_deref(), Some("https://music.yandex.ru/artist/4"));

    let liked = YandexPlaylist {
        kind: YandexPlaylistKindValue::Text("3".to_owned()),
        title: None,
        owner: Some(YandexPlaylistOwner { name: None, login: Some("login".to_owned()) }),
        tracks: vec![item("1", "One", true)],
        cover_uri: None,
        og_image: None,
    };
    let playlist = parse_playlist_response(&Some(liked.clone()), Some("login"), "3", "ru", &options)
        .unwrap()
        .unwrap();
    assert_eq!(playlist.name, "login's liked songs");
    assert_eq!(playlist.uri.as_deref(), Some("https://music.yandex.ru/users/login/playlists/3"));
    let mut untitled = liked;
    untitled.kind = YandexPlaylistKindValue::Unsigned(1000);
    assert_eq!(
        parse_playlist_response(&Some(untitled), None, "3", "ru", &options).err().unwrap().kind(),
        YandexMusicErrorKind::InvalidResponse
    );

    let search = parse_search_response(&vec![item("1", "One", true)], "q", &options).unwrap().unwrap();
    assert_eq!(search.name, "Yandex Music Search: q");
    assert!(search.is_search_result);
    assert_eq!(search.kind, YandexMusicPlaylistKind::Search);
    assert_eq!(parse_search_response(&vec![], "q", &options).unwrap(), None);
    let recs = parse_recommendations_response(&vec![item("1", "One", true)], &options)
        .unwrap()
        .unwrap();
    assert_eq!(recs.name, "Yandex Music Recommendations");
    assert!(!recs.is_search_result);
}

#[test]
fn download_info_documents_need_each_field_once() {
    let options = options();
    let xml = b"<?xml version=\"1.0\"?><download-info><host>h.example</host><path>/p</path><ts>1</ts><region>2</region><s>sec</s></download-info>";
    let info = parse_download_info_xml(xml, &options).unwrap();
    assert_eq!(info.host, "h.example");
    assert_eq!(info.path, "/p");
    assert_eq!(info.timestamp, "1");
    assert_eq!(info.secret, "sec");
    let twice = b"<download-info><host>a</host><host>b</host><path>/p</path><ts>1</ts><s>x</s></download-info>";
    assert!(parse_download_info_xml(twice, &options).is_err());
    let missing = b"<download-info><host>a</host><path>/p</path><ts>1</ts></download-info>";
    assert!(parse_download_info_xml(missing, &options).is_err());
    let attribute = b"<download-info a=\"1\"><host>a</host><path>/p</path><ts>1</ts><s>x</s></download-info>";
    assert!(parse_download_info_xml(attribute, &options).is_err());
    let cdata = b"<download-info><host><![CDATA[a]]></host><path>/p</path><ts>1</ts><s>x</s></download-info>";
    assert!(parse_download_info_xml(cdata, &options).is_err());

    let events = vec![
        XmlEvent::Start("download-info".to_owned(), false),
        XmlEvent::Start("host".to_owned(), false),
        XmlEvent::Text("h".to_owned()),
        XmlEvent::End("host".to_owned()),
        XmlEvent::Start("path".to_owned(), false),
        XmlEvent::Text("/p".to_owned()),
        XmlEvent::End("path".to_owned()),
        XmlEvent::Start("ts".to_owned(), false),
        XmlEvent::Text("2".to_owned()),
        XmlEvent::End("ts".to_owned()),
        XmlEvent::Start("s".to_owned(), false),
        XmlEvent::Text("k".to_owned()),
        XmlEvent::End("s".to_owned()),
        XmlEvent::End("download-info".to_owned()),
        XmlEvent::Eof,
    ];
    let info = parse_download_info_events(&events, &options).unwrap();
    assert_eq!((info.host.as_str(), info.timestamp.as_str()), ("h", "2"));
    assert!(parse_download_info_events(&events[..events.len() - 1].to_vec(), &options).is_err());
    assert_eq!(download_info_field("ts"), Some(DownloadInfoField::Timestamp));
    assert_eq!(download_info_field("t"), None);
}

#[test]
fn manager_builds_endpoints_and_checks_playback() {
    let mut manager = manager();
    assert_eq!(manager.source_name(), "yandex-music");
    assert_eq!(
        manager
            .route_endpoint(&YandexMusicRoute::Album { album_id: "5".to_owned(), domain: "ru".to_owned() })
            .unwrap(),
        "https://api.music.yandex.net/albums/5/with-tracks?page-size=300"
    );
    assert_eq!(
        manager
            .route_endpoint(&YandexMusicRoute::Playlist {
                owner: Some("me".to_owned()),
                playlist_id: "3".to_owned(),
                domain: "ru".to_owned(),
            })
            .unwrap(),
        "https://api.music.yandex.net/users/me/playlists/3?page-size=600&rich-tracks=true"
    );
    assert_eq!(
        manager.route_endpoint(&YandexMusicRoute::Search("a b&c".to_owned())).unwrap(),
        "https://api.music.yandex.net/search?text=a+b%26c&type=track&page=0"
    );
    assert_eq!(
        manager.route_endpoint(&YandexMusicRoute::Recommendations("8".to_owned())).unwrap(),
        "https://api.music.yandex.net/tracks/8/similar"
    );
    assert_eq!(
        manager
            .route_endpoint(&YandexMusicRoute::Track {
                track_id: "x".to_owned(),
                album_id: None,
                domain: "ru".to_owned(),
            })
            .err()
            .unwrap()
            .kind(),
        YandexMusicErrorKind::InvalidOptions
    );
    assert_eq!(
        manager.download_info_endpoint("8").unwrap(),
        "https://api.music.yandex.net/tracks/8/download-info"
    );
    assert_eq!(manager.artist_details_endpoint("9", "ru").unwrap(), "https://api.music.yandex.net/artists/9");
    assert!(manager.check_playback_access(HttpNetworkAccess::PublicInternetOnly).is_ok());
    assert!(check_playback_format(Container::Mp3, Codec::Mp3).is_ok());
    assert_eq!(
        check_playback_format(Container::Mp4, Codec::Mp3).err().unwrap().kind(),
        YandexMusicPlaybackErrorKind::IncompatibleFormat
    );
    let info = TrackInfo {
        title: "t".to_owned(),
        author: "a".to_owned(),
        duration: Duration::from_millis(1),
        identifier: "15".to_owned(),
        is_stream: false,
        uri: None,
        artwork_url: None,
        isrc: None,
    };
    let item = manager.decode_with_info(&info, &[]).unwrap();
    assert!(manager.is_encodable(&item));
    assert_eq!(manager.encode(&item).unwrap(), Vec::<u8>::new());
    assert!(matches!(item, YandexMusicSourceItem::Track(_)));
    assert_eq!(manager.decode_with_info(&info, &[1]).err().unwrap(), SourceRegistryError::SourceFailure);
    assert!(manager.ensure_active(false).is_ok());
    assert_eq!(manager.ensure_active(true).err().unwrap().kind(), YandexMusicErrorKind::Cancelled);
    manager.shutdown();
    assert_eq!(manager.ensure_active(false).err().unwrap().kind(), YandexMusicErrorKind::Shutdown);
    let mut private = options();
    private.playback_scheme = YandexMusicPlaybackScheme::HttpForPrivateNetworks;
    let auth = YandexMusicAuthentication::new("token".to_owned()).unwrap();
    assert!(YandexMusicSourceManager::new(private, auth, 10, 10).is_err());
}
