use mantle_media::bandcamp::{
    decode_html_attribute, route_bandcamp_identifier, BandcampRoute, BandcampSourceOptions,
};
use mantle_media::beam::{route_beam_identifier, BeamRoute, BeamSourceOptions};
use mantle_media::getyarn::{route_getyarn_identifier, GetyarnRoute, GetyarnSourceOptions};

#[test]
fn decoder_handles_named_and_numeric_entities_once() {
    let decoded = decode_html_attribute(
        br"{&quot;x&quot;:&quot;A &amp; B &#39; &#x2665; &amp;quot;&quot;}",
        1024,
    )
    .unwrap();
    assert_eq!(
        std::str::from_utf8(&decoded).unwrap(),
        r#"{"x":"A & B ' ♥ &quot;"}"#
    );
}

#[test]
fn canonical_url_uses_the_legacy_source_host() {
    let route = BeamRoute {
        channel: "Fixture".to_owned(),
        original_url: "https://mixer.com/Fixture".to_owned(),
    };
    assert_eq!(route.canonical_url(), "https://beam.pro/Fixture");
}

#[test]
fn canonical_url_upgrades_historical_http_pages() {
    let route = GetyarnRoute {
        clip_id: "fixture-id".to_owned(),
        original_url: "http://www.getyarn.io/yarn-clip/fixture-id".to_owned(),
    };
    assert_eq!(
        route.canonical_url(),
        "https://getyarn.io/yarn-clip/fixture-id"
    );
}

#[test]
fn beam_routes_mixer_channels_and_rejects_other_shapes() {
    let options = BeamSourceOptions::default_options();
    let route = route_beam_identifier("https://mixer.com/Fixture", &options).unwrap();
    assert_eq!(route.channel, "Fixture");
    assert!(route_beam_identifier("http://mixer.com/Fixture", &options).is_none());
    assert!(route_beam_identifier("https://mixer.com/Fixture?x=1", &options).is_none());
    assert!(route_beam_identifier("https://example.com/Fixture", &options).is_none());
    assert!(route_beam_identifier("https://mixer.com/a/b", &options).is_none());
}

#[test]
fn getyarn_routes_clip_pages() {
    let options = GetyarnSourceOptions::default_options();
    let route =
        route_getyarn_identifier("http://www.getyarn.io/yarn-clip/fixture-id", &options).unwrap();
    assert_eq!(route.clip_id, "fixture-id");
    assert!(route_getyarn_identifier("https://getyarn.io/other/fixture-id", &options).is_none());
}

#[test]
fn bandcamp_routes_tracks_and_albums_to_canonical_urls() {
    let options = BandcampSourceOptions::default_options();
    assert_eq!(
        route_bandcamp_identifier("Artist.Bandcamp.com/track/song-1?from=x", &options),
        Some(BandcampRoute::Track(
            "https://artist.bandcamp.com/track/song-1".to_owned()
        ))
    );
    assert_eq!(
        route_bandcamp_identifier("https://artist.bandcamp.com/album/record/", &options),
        Some(BandcampRoute::Album(
            "https://artist.bandcamp.com/album/record".to_owned()
        ))
    );
    assert!(route_bandcamp_identifier("https://artist.example.com/track/x", &options).is_none());
    assert!(route_bandcamp_identifier("https://-bad.bandcamp.com/track/x", &options).is_none());
}

#[test]
fn html_decoder_keeps_unknown_entities_and_enforces_the_limit() {
    assert_eq!(decode_html_attribute(b"&bogus; &#0;", 64).unwrap(), b"&bogus; &#0;");
    assert!(decode_html_attribute(b"abcdef", 5).is_err());
}
