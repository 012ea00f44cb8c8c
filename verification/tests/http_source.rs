use mantle_media::duration::Duration;
use mantle_media::hls::HlsError;
use mantle_media::http_policy::SeekOrigin;
use mantle_media::media::{Codec, Container, MediaError, MediaInfo, MediaMetadata};
use mantle_media::playlist::{
    match_playlist_response, HttpPlaylistOptions, PlaylistError, PlaylistFormat, PlaylistLoadError,
    PlaylistMatch, PlaylistReference,
};
use mantle_media::source::{
    make_track_info, path_file_name, HttpLoadAction, HttpMediaSourceManager,
    HttpMediaSourceOptions, HttpSourceLoad, MediaProbe, SourceRegistryError,
};
use mantle_media::track::TrackInfo;

fn info(duration: Option<Duration>, metadata: MediaMetadata, container: Container) -> MediaInfo {
    MediaInfo {
        container,
        codec: Codec::Opus,
        sample_rate: 48_000,
        channels: 2,
        duration,
        seekable: true,
        metadata,
    }
}

fn manager() -> HttpMediaSourceManager {
    HttpMediaSourceManager::new(HttpMediaSourceOptions::default_options())
}

fn finished(action: HttpLoadAction) -> Result<Option<HttpSourceLoad>, SourceRegistryError> {
    match action {
        HttpLoadAction::Finish(result) => result,
        other => panic!("expected a finished load, got {other:?}"),
    }
}

#[test]
fn file_names_follow_unix_path_components() {
    assert_eq!(path_file_name("/music/song.mp3").as_deref(), Some("song.mp3"));
    assert_eq!(path_file_name("https://cdn.test/a/b.mp3?x=1").as_deref(), Some("b.mp3?x=1"));
    assert_eq!(path_file_name("foo.txt/.").as_deref(), Some("foo.txt"));
    assert_eq!(path_file_name("dir//").as_deref(), Some("dir"));
    assert_eq!(path_file_name("https://cdn.test/").as_deref(), Some("cdn.test"));
    assert_eq!(path_file_name("a/.."), None);
    assert_eq!(path_file_name("/"), None);
    assert_eq!(path_file_name("."), None);
    assert_eq!(path_file_name(""), None);
}

#[test]
fn track_info_falls_back_to_file_name_and_unknown_artist() {
    let id = "https://cdn.test/audio/track.ogg";
    let media = info(None, MediaMetadata::empty(), Container::Ogg);
    let track = make_track_info(id, &media, None);
    assert_eq!(
        track,
        TrackInfo {
            title: "track.ogg".to_owned(),
            author: "Unknown artist".to_owned(),
            duration: Duration::zero(),
            identifier: id.to_owned(),
            is_stream: true,
            uri: Some(id.to_owned()),
            artwork_url: None,
            isrc: None,
        }
    );
}

#[test]
fn track_info_prefers_given_then_metadata_titles() {
    let id = "/tmp/x.flac";
    let metadata = MediaMetadata {
        title: Some("Tagged".to_owned()),
        author: Some("Artist".to_owned()),
        isrc: Some("USRC17607839".to_owned()),
    };
    let media = info(Some(Duration::from_secs(5)), metadata, Container::Flac);
    let tagged = make_track_info(id, &media, None);
    assert_eq!(tagged.title, "Tagged");
    assert_eq!(tagged.author, "Artist");
    assert_eq!(tagged.duration, Duration::from_secs(5));
    assert!(!tagged.is_stream);
    assert_eq!(tagged.isrc.as_deref(), Some("USRC17607839"));
    let given = make_track_info(id, &media, Some("Given".to_owned()));
    assert_eq!(given.title, "Given");
    let bare = make_track_info("..", &info(None, MediaMetadata::empty(), Container::Flac), None);
    assert_eq!(bare.title, "..");
}

#[test]
fn loads_start_from_http_and_icy_identifiers() {
    let m = manager();
    assert_eq!(m.source_name(), "http");
    assert!(matches!(finished(m.begin_load(None)), Ok(None)));
    assert!(matches!(finished(m.begin_load(Some("ftp://a.test/x.mp3"))), Ok(None)));
    match m.begin_load(Some("icy://radio.test/live.M3U?x=1")) {
        HttpLoadAction::FetchPlaylist(url) => assert_eq!(url, "http://radio.test/live.M3U?x=1"),
        other => panic!("unexpected {other:?}"),
    }
    match m.begin_load(Some("https://a.test/song.mp3")) {
        HttpLoadAction::OpenRange(url) => assert_eq!(url, "https://a.test/song.mp3"),
        other => panic!("unexpected {other:?}"),
    }
}

#[test]
fn playlist_outcomes_become_tracks_referrals_or_range_reads() {
    let m = manager();
    let id = "https://radio.test/live.m3u8";
    let hls = PlaylistMatch {
        format: PlaylistFormat::Hls,
        reference: PlaylistReference { identifier: "https://radio.test/a.ts".to_owned(), title: None },
    };
    match finished(m.after_playlist(id, Ok(Some(hls)))) {
        Ok(Some(HttpSourceLoad::Item(track))) => {
            assert_eq!(track.probe, MediaProbe::HlsOuter);
            assert_eq!(track.info.title, id);
            assert_eq!(track.info.author, "Unknown artist");
            assert!(track.info.is_stream);
            assert_eq!(track.info.duration, Duration::zero());
            assert_eq!(track.info.uri.as_deref(), Some(id));
        }
        other => panic!("unexpected {other:?}"),
    }
    let pls = PlaylistMatch {
        format: PlaylistFormat::Pls,
        reference: PlaylistReference {
            identifier: "http://b.test/y.ogg".to_owned(),
            title: Some("Radio".to_owned()),
        },
    };
    match finished(m.after_playlist(id, Ok(Some(pls)))) {
        Ok(Some(HttpSourceLoad::Referral(next))) => assert_eq!(next, "http://b.test/y.ogg"),
        other => panic!("unexpected {other:?}"),
    }
    match m.after_playlist(id, Ok(None)) {
        HttpLoadAction::OpenRange(url) => assert_eq!(url, id),
        other => panic!("unexpected {other:?}"),
    }
    let refused = Err(PlaylistLoadError::Playlist(PlaylistError::TooManyEntries { limit: 1 }));
    assert!(matches!(finished(m.after_playlist(id, refused)), Err(SourceRegistryError::SourceFailure)));
}

#[test]
fn range_and_media_outcomes_finish_the_load() {
    let m = manager();
    let id = "https://a.test/dir/song.MP3?sig=1";
    match m.after_range_open(id, Ok(id.to_owned())) {
        HttpLoadAction::OpenMedia { identifier, extension } => {
            assert_eq!(identifier, id);
            assert_eq!(extension.as_deref(), Some("MP3"));
        }
        other => panic!("unexpected {other:?}"),
    }
    match finished(m.after_range_open(id, Ok("https://b.test/moved.mp3".to_owned()))) {
        Ok(Some(HttpSourceLoad::Referral(next))) => assert_eq!(next, "https://b.test/moved.mp3"),
        other => panic!("unexpected {other:?}"),
    }
    assert!(matches!(
        finished(m.after_range_open(id, Err(MediaError::Cancelled))),
        Err(SourceRegistryError::SourceFailure)
    ));
    let media = info(None, MediaMetadata::empty(), Container::WebM);
    match finished(m.after_media_open(id, Ok(media))) {
        Ok(Some(HttpSourceLoad::Item(track))) => {
            assert_eq!(track.probe, MediaProbe::MatroskaWebM);
            assert_eq!(track.info.title, "song.MP3?sig=1");
            assert!(track.info.is_stream);
        }
        other => panic!("unexpected {other:?}"),
    }
    assert!(matches!(
        finished(m.after_media_open(id, Err(MediaError::NoAudioTrack))),
        Err(SourceRegistryError::SourceFailure)
    ));
}

#[test]
fn stored_tracks_keep_their_probe() {
    let m = manager();
    let media = info(None, MediaMetadata::empty(), Container::Mp3);
    let track = make_track_info("https://a.test/x.mp3", &media, None);
    let payload = mantle_media::source::encode_probe(MediaProbe::Mp3).unwrap();
    let restored = m.decode_with_info(&track, &payload).unwrap();
    assert_eq!(restored.probe, MediaProbe::Mp3);
    assert_eq!(restored.info, track);
    assert_eq!(m.decode_with_info(&track, &[0, 9, b'x']).unwrap_err(), SourceRegistryError::SourceFailure);
}

#[test]
fn playlist_responses_resolve_against_the_final_uri() {
    let options = HttpPlaylistOptions::default_options();
    assert_eq!(options.http.max_response_bytes, 1024 * 1024);
    let found = match_playlist_response(
        "https://radio.test/list.m3u",
        b"#EXTM3U\nnotes\nhttp://a.test/x.mp3\n",
        &options,
    )
    .unwrap()
    .unwrap();
    assert_eq!(found.format, PlaylistFormat::M3u);
    assert_eq!(found.reference.identifier, "http://a.test/x.mp3");
    assert!(matches!(match_playlist_response("https://radio.test/", b"hello", &options), Ok(None)));
    assert!(matches!(
        match_playlist_response("ftp://radio.test/", b"#EXTM3U\nnotes\nhttp://a.test/x.mp3\n", &options),
        Err(PlaylistLoadError::Playlist(PlaylistError::InvalidReference(_)))
    ));
}

#[test]
fn playlist_fetches_cap_the_response_at_the_playlist_limit() {
    let mut options = HttpPlaylistOptions::default_options();
    options.http.max_response_bytes = 10;
    assert_eq!(options.response_options().unwrap().max_response_bytes, 10);
    options.http.max_response_bytes = u64::MAX;
    assert_eq!(options.response_options().unwrap().max_response_bytes, 1024 * 1024);
    options.playlist.max_entries = 0;
    assert!(matches!(
        options.response_options(),
        Err(PlaylistLoadError::Playlist(PlaylistError::InvalidLimits(_)))
    ));
}

#[test]
fn playlist_load_failures_keep_their_cause_as_hls_errors() {
    let refused = PlaylistLoadError::Playlist(PlaylistError::TooManyEntries { limit: 1 });
    assert!(matches!(
        HlsError::from(refused),
        HlsError::Playlist(PlaylistError::TooManyEntries { limit: 1 })
    ));
    assert!(matches!(
        HlsError::from(PlaylistLoadError::Media(MediaError::Cancelled)),
        HlsError::Media(MediaError::Cancelled)
    ));
}

#[test]
fn memory_inputs_read_and_seek_like_a_cursor() {
    let mut input = mantle_media::media::MemoryInput::new(b"abcdef".to_vec());
    assert!(input.is_seekable());
    assert_eq!(input.byte_len(), Some(6));
    let mut buffer = [0u8; 4];
    assert_eq!(input.read(&mut buffer), 4);
    assert_eq!(&buffer, b"abcd");
    assert_eq!(input.read(&mut buffer), 2);
    assert_eq!(&buffer, b"efcd");
    assert_eq!(input.read(&mut buffer), 0);
    assert_eq!(input.seek(SeekOrigin::End(-2)), Ok(4));
    let mut one = [0u8; 1];
    assert_eq!(input.read(&mut one), 1);
    assert_eq!(one, [b'e']);
    assert_eq!(input.seek(SeekOrigin::Current(10)), Ok(15));
    assert_eq!(input.read(&mut one), 0);
    assert_eq!(input.position(), 15);
    assert_eq!(
        input.seek(SeekOrigin::Current(-16)),
        Err("invalid seek to a negative or overflowing position")
    );
    assert_eq!(input.position(), 15);
    assert_eq!(input.seek(SeekOrigin::Start(1)), Ok(1));
}
