use mantle_media::duration::Duration;
use mantle_media::hls::{
    parse_hls_playlist, HlsError, HlsLimits, HlsLiveLimits, HlsLivePoll, HlsLiveSequence,
    HlsMasterPlaylist, HlsMediaPlaylist, HlsPlaylist, HlsSegment, HlsVodSequence,
};
use mantle_media::playlist::{
    probe_playlist, resolve_http_reference, PlaylistError, PlaylistFormat, PlaylistLimits,
};

fn segment(sequence: u64, uri: &str) -> HlsSegment {
    HlsSegment {
        sequence,
        uri: uri.to_owned(),
        duration: Some(Duration::from_secs(2)),
        title: None,
        discontinuity: false,
    }
}

fn media(first: u64, uris: &[&str], end_list: bool) -> HlsMediaPlaylist {
    HlsMediaPlaylist {
        media_sequence: first,
        target_duration: Some(Duration::from_secs(2)),
        end_list,
        segments: uris
            .iter()
            .enumerate()
            .map(|(i, uri)| segment(first + i as u64, uri))
            .collect(),
    }
}

fn parse(text: &str) -> Result<HlsPlaylist, HlsError> {
    parse_hls_playlist(
        text.as_bytes(),
        "https://example.test/live/index.m3u8",
        PlaylistLimits::default_limits(),
        HlsLimits::default_limits(),
    )
}

#[test]
fn master_playlists_list_resolved_variants() {
    let text = "#EXTM3U\n#EXT-X-STREAM-INF:BANDWIDTH=128000\nlow/a.m3u8\n\
                #EXT-X-STREAM-INF:BANDWIDTH=256000\nhttps://cdn.test/high.m3u8\n";
    let HlsPlaylist::Master(master) = parse(text).unwrap() else {
        panic!("expected a master playlist");
    };
    assert_eq!(master.variants.len(), 2);
    assert_eq!(master.variants[0].uri, "https://example.test/live/low/a.m3u8");
    assert_eq!(master.variants[0].bandwidth, Some(128000));
    assert_eq!(master.variants[1].uri, "https://cdn.test/high.m3u8");
    assert_eq!(master.selected_variant().unwrap().bandwidth, Some(128000));
}

#[test]
fn media_playlists_number_and_resolve_segments() {
    let text = "#EXTM3U\n#EXT-X-TARGETDURATION:4\n#EXT-X-MEDIA-SEQUENCE:7\n\
                #EXTINF:3.5,First\nseg7.ts\n#EXTINF:4,\n../seg8.ts\n#EXT-X-ENDLIST\n";
    let HlsPlaylist::Media(media) = parse(text).unwrap() else {
        panic!("expected a media playlist");
    };
    assert_eq!(media.media_sequence, 7);
    assert!(media.end_list);
    assert_eq!(media.target_duration, Some(Duration::from_secs(4)));
    assert_eq!(media.segments.len(), 2);
    assert_eq!(media.segments[0].sequence, 7);
    assert_eq!(media.segments[0].uri, "https://example.test/live/seg7.ts");
    assert_eq!(media.segments[0].duration, Some(Duration::from_millis(3500)));
    assert_eq!(media.segments[0].title.as_deref(), Some("First"));
    assert_eq!(media.segments[1].sequence, 8);
    assert_eq!(media.segments[1].uri, "https://example.test/seg8.ts");
}

#[test]
fn playlists_without_a_header_are_refused() {
    assert!(parse("seg.ts\n").is_err());
}

#[test]
fn vod_sequences_yield_each_segment_once() {
    assert!(matches!(HlsVodSequence::new(media(0, &["a"], false)), Err(HlsError::NotVod)));
    let mut vod = HlsVodSequence::new(media(3, &["a", "b"], true)).unwrap();
    assert_eq!(vod.remaining(), 2);
    assert_eq!(vod.next_segment().unwrap().uri, "a");
    assert_eq!(vod.next_segment().unwrap().uri, "b");
    assert!(vod.next_segment().is_none());
    assert_eq!(vod.remaining(), 0);
}

#[test]
fn live_polls_emit_unseen_segments_then_wait() {
    let mut live = HlsLiveSequence::new(HlsLiveLimits::default_limits()).unwrap();
    assert_eq!(live.retained_identity_capacity_bytes(), 0);
    assert_eq!(live.retained_segment_capacity(), 0);
    let snapshot = media(10, &["s10", "s11"], false);
    let now = Duration::from_secs(1);
    assert!(matches!(live.before_reload(now), Ok(None)));
    match live.poll(&snapshot, now).unwrap() {
        HlsLivePoll::Segment(s) => assert_eq!(s.uri, "s10"),
        _ => panic!("expected a segment"),
    }
    match live.poll(&snapshot, now).unwrap() {
        HlsLivePoll::Segment(s) => assert_eq!(s.uri, "s11"),
        _ => panic!("expected a segment"),
    }
    let deadline = match live.poll(&snapshot, now).unwrap() {
        HlsLivePoll::WaitUntil(deadline) => deadline,
        _ => panic!("expected a wait"),
    };
    assert!(now.less_than(&deadline));
    assert_eq!(live.retained_segments(), 2);
    assert!(live.retained_identity_capacity_bytes() >= 9);
    match live.before_reload(now) {
        Ok(Some(HlsLivePoll::WaitUntil(d))) => assert_eq!(d, deadline),
        _ => panic!("expected the announced deadline"),
    }
    assert!(matches!(live.before_reload(deadline), Ok(None)));
    assert!(matches!(
        live.before_reload(Duration::zero()),
        Err(HlsError::InvalidPlaylist("live poll time moved backwards"))
    ));
    let ended = media(10, &["s10", "s11"], true);
    assert!(matches!(live.poll(&ended, deadline).unwrap(), HlsLivePoll::Ended));
}

#[test]
fn playlist_probes_pick_the_first_reference() {
    let limits = PlaylistLimits::default_limits();
    let hls = probe_playlist(b"#EXTM3U\n#EXTINF:10,Song\nhttp://a.test/x.mp3\n", false, limits)
        .unwrap()
        .unwrap();
    assert_eq!(hls.format, PlaylistFormat::Hls);
    assert_eq!(hls.reference.identifier, "http://a.test/x.mp3");
    assert_eq!(hls.reference.title, None);

    let m3u = probe_playlist(b"#EXTM3U\nnotes\nhttp://a.test/x.mp3\n", false, limits)
        .unwrap()
        .unwrap();
    assert_eq!(m3u.format, PlaylistFormat::M3u);
    assert_eq!(m3u.reference.identifier, "http://a.test/x.mp3");

    assert_eq!(probe_playlist(b"#EXTM3U\n#EXT-X-TARGETDURATION:2\n", false, limits).unwrap(), None);

    let pls = probe_playlist(
        b"[playlist]\nFile1=http://b.test/y.ogg\nTitle1=Radio\nNumberOfEntries=1\n",
        false,
        limits,
    )
    .unwrap()
    .unwrap();
    assert_eq!(pls.format, PlaylistFormat::Pls);
    assert_eq!(pls.reference.identifier, "http://b.test/y.ogg");
    assert_eq!(pls.reference.title.as_deref(), Some("Radio"));

    assert_eq!(probe_playlist(b"http://c.test/z\n", false, limits).unwrap(), None);
    let plain = probe_playlist(b"http://c.test/z\n", true, limits).unwrap().unwrap();
    assert_eq!(plain.format, PlaylistFormat::Plain);

    let small = PlaylistLimits { max_playlist_bytes: 4, ..limits };
    assert_eq!(
        probe_playlist(b"#EXTM3U\n", false, small).unwrap_err(),
        PlaylistError::TooLarge { actual: 8, limit: 4 }
    );
}

#[test]
fn references_resolve_against_http_bases() {
    assert_eq!(
        resolve_http_reference("https://a.test/dir/list.m3u8", "../x/./y.ts#frag").unwrap(),
        "https://a.test/x/y.ts"
    );
    assert_eq!(
        resolve_http_reference("https://a.test/dir/list.m3u8", "/root.ts?q=1").unwrap(),
        "https://a.test/root.ts?q=1"
    );
    assert!(resolve_http_reference("https://a.test/", "ftp://b.test/x").is_err());
    assert!(resolve_http_reference("https://a.test/", "https://user@b.test/x").is_err());
}

#[test]
fn live_history_keeps_the_newest_uris_within_the_bound() {
    let limits = HlsLiveLimits { max_retained_segments: 2, ..HlsLiveLimits::default_limits() };
    let mut live = HlsLiveSequence::new(limits).unwrap();
    let snapshot = media(1, &["a", "bb", "ccc"], false);
    let now = Duration::from_secs(1);
    for expected in ["a", "bb", "ccc"] {
        match live.poll(&snapshot, now).unwrap() {
            HlsLivePoll::Segment(s) => assert_eq!(s.uri, expected),
            _ => panic!("expected a segment"),
        }
    }
    assert_eq!(live.retained_segments(), 2);
    assert!(live.retained_identity_capacity_bytes() >= 2 + 3 + 3);
    assert!(live.retained_segment_capacity() >= 2);
}

#[test]
fn new_live_sequences_retain_the_smaller_of_emitted_and_bound() {
    let limits = HlsLiveLimits { max_retained_segments: 3, ..HlsLiveLimits::default_limits() };
    let mut live = HlsLiveSequence::new(limits).unwrap();
    assert_eq!(live.retained_segments(), 0);
    assert_eq!(live.retained_identity_capacity_bytes(), 0);
    let snapshot = media(1, &["seg-a", "seg-bb"], false);
    let now = Duration::from_secs(1);
    assert!(matches!(live.poll(&snapshot, now).unwrap(), HlsLivePoll::Segment(_)));
    assert_eq!(live.retained_segments(), 1);
    assert!(live.retained_identity_capacity_bytes() >= 5 + 5);
    assert!(matches!(live.poll(&snapshot, now).unwrap(), HlsLivePoll::Segment(_)));
    assert_eq!(live.retained_segments(), 2);
    assert!(live.retained_identity_capacity_bytes() >= 5 + 6 + 6);
}

#[test]
fn parsed_media_playlists_stay_within_their_limits() {
    let text = "#EXTM3U\n#EXTINF:2,\na.ts\n#EXTINF:3,\nb.ts\n";
    let hls = HlsLimits { max_segments: 1, ..HlsLimits::default_limits() };
    assert!(matches!(
        parse_hls_playlist(text.as_bytes(), "https://x.test/", PlaylistLimits::default_limits(), hls),
        Err(HlsError::TooManySegments { limit: 1 })
    ));
    let short = HlsLimits { max_playlist_duration: Duration::from_secs(4), ..HlsLimits::default_limits() };
    assert!(matches!(
        parse_hls_playlist(text.as_bytes(), "https://x.test/", PlaylistLimits::default_limits(), short),
        Err(HlsError::PlaylistDurationExceeded { .. })
    ));
    let HlsPlaylist::Media(m) = parse(text).unwrap() else {
        panic!("expected a media playlist");
    };
    assert_eq!(m.segments.len(), 2);
}

#[test]
fn icy_references_become_http() {
    let limits = PlaylistLimits::default_limits();
    let m = probe_playlist(b"icy://radio.test/live\n", true, limits).unwrap().unwrap();
    assert_eq!(m.reference.identifier, "http://radio.test/live");
}

#[test]
fn live_reloads_refuse_master_playlists() {
    let mut live = HlsLiveSequence::new(HlsLiveLimits::default_limits()).unwrap();
    let now = Duration::from_secs(1);
    let master = HlsPlaylist::Master(HlsMasterPlaylist { variants: Vec::new() });
    assert!(matches!(
        live.poll_reloaded(&master, now),
        Err(HlsError::InvalidPlaylist("live reload returned a master playlist"))
    ));
    assert_eq!(live.retained_segments(), 0);
    let snapshot = HlsPlaylist::Media(media(1, &["a"], false));
    match live.poll_reloaded(&snapshot, now).unwrap() {
        HlsLivePoll::Segment(s) => assert_eq!(s.uri, "a"),
        _ => panic!("expected a segment"),
    }
}
