use mantle_media::duration::Duration;
use mantle_media::niconico::{
    NicoNicoAuthentication, NicoNicoErrorKind, NicoNicoPlaybackContext,
    NicoNicoPlaybackErrorKind, NicoNicoRoute, NicoNicoSourceManager, NicoNicoSourceOptions,
};
use mantle_media::remote_http::{
    check_response_framing, decide_call, next_body_read, request_ceiling, retry_delay, BodyRead,
    CallDecision, CallOutcome, RemoteHttpErrorKind, RemoteHttpMethod, RemoteHttpOptions,
    RemoteHttpRequest, RemoteHttpResponse, RemoteRetryMode,
};
use mantle_media::remote_http::{transport_outcome, IoFaultKind, TransportFault};

#[test]
fn requests_validate_urls_headers_and_ceilings() {
    let request = RemoteHttpRequest::get("https://example.com/a?b=1").unwrap();
    assert_eq!(request.method(), RemoteHttpMethod::Get);
    assert_eq!(request.url(), "https://example.com/a?b=1");
    let request = request.header("User-Agent", "agent/1").unwrap();
    assert_eq!(request.headers()[0], ("user-agent".to_owned(), "agent/1".to_owned()));
    assert_eq!(
        RemoteHttpRequest::get("https://u@example.com/").err().unwrap().kind(),
        RemoteHttpErrorKind::InvalidRequest
    );
    assert_eq!(RemoteHttpRequest::get("ftp://example.com/").err().unwrap().kind(), RemoteHttpErrorKind::InvalidRequest);
    let request = RemoteHttpRequest::get("https://example.com/").unwrap();
    assert!(request.header("Host", "x").is_err());
    let request = RemoteHttpRequest::get("https://example.com/").unwrap();
    assert!(request.header("X-Test", "a\nb").is_err());
    let request = RemoteHttpRequest::get("https://example.com/").unwrap();
    assert!(request.header("bad name", "x").is_err());
    let request = RemoteHttpRequest::get("https://example.com/").unwrap();
    assert!(request.max_response_bytes(0).is_err());
    let post = RemoteHttpRequest::post("https://example.com/p", b"body").unwrap();
    assert_eq!(post.body(), b"body");
    assert_eq!(post.method(), RemoteHttpMethod::Post);
    let options = RemoteHttpOptions::default_options();
    assert_eq!(request_ceiling(&options, &post).unwrap(), options.max_response_bytes);
    let small = RemoteHttpRequest::get("https://example.com/").unwrap().max_response_bytes(10).unwrap();
    assert_eq!(request_ceiling(&options, &small).unwrap(), 10);
    let huge = RemoteHttpRequest::get("https://example.com/")
        .unwrap()
        .max_response_bytes(options.max_response_bytes + 1)
        .unwrap();
    assert_eq!(request_ceiling(&options, &huge).err().unwrap().kind(), RemoteHttpErrorKind::InvalidRequest);
}

#[test]
fn retries_are_bounded_and_only_for_idempotent_requests() {
    let options = RemoteHttpOptions::default_options();
    let get = RemoteHttpRequest::get("https://example.com/").unwrap();
    let busy = CallOutcome::Response { status: 503, retry_after: None };
    assert_eq!(decide_call(&options, &get, 0, busy), CallDecision::Retry(retry_delay(&options, 0, None)));
    assert!(matches!(decide_call(&options, &get, options.max_retries, busy), CallDecision::Fail(e) if e.kind() == RemoteHttpErrorKind::ServerUnavailable));
    let post = RemoteHttpRequest::post("https://example.com/", b"").unwrap();
    assert!(matches!(decide_call(&options, &post, 0, busy), CallDecision::Fail(_)));
    let idempotent_post = post.retry_mode(RemoteRetryMode::Idempotent);
    assert!(matches!(decide_call(&options, &idempotent_post, 0, busy), CallDecision::Retry(_)));
    assert_eq!(
        decide_call(&options, &get, 0, CallOutcome::Response { status: 200, retry_after: None }),
        CallDecision::ReadBody
    );
    assert!(matches!(
        decide_call(&options, &get, 0, CallOutcome::Response { status: 404, retry_after: None }),
        CallDecision::Fail(e) if e.kind() == RemoteHttpErrorKind::NotFound
    ));
    assert!(matches!(
        decide_call(&options, &get, 0, CallOutcome::TransportFailure { retriable: false, kind: RemoteHttpErrorKind::Timeout }),
        CallDecision::Fail(e) if e.kind() == RemoteHttpErrorKind::Timeout
    ));
    let first = retry_delay(&options, 0, None);
    let later = retry_delay(&options, 5, None);
    assert!(first.as_nanos() <= later.as_nanos());
    assert!(later.as_nanos() <= options.retry_max_delay.as_nanos());
    let server = Duration::from_secs(20);
    assert_eq!(retry_delay(&options, 0, Some(server)), server);
}

#[test]
fn responses_must_be_identity_encoded_and_bounded() {
    assert!(check_response_framing(&vec![b"IDENTITY".to_vec()], Some(10), 10).is_ok());
    assert_eq!(
        check_response_framing(&vec![b"gzip".to_vec()], None, 10).err().unwrap().kind(),
        RemoteHttpErrorKind::InvalidResponse
    );
    assert_eq!(
        check_response_framing(&vec![], Some(11), 10).err().unwrap().kind(),
        RemoteHttpErrorKind::ResponseTooLarge
    );
    assert_eq!(next_body_read(0, 100, 8192), BodyRead::Chunk(100));
    assert_eq!(next_body_read(0, 100_000, 8192), BodyRead::Chunk(8192));
    assert_eq!(next_body_read(100, 100, 8192), BodyRead::ProbeEnd);
    let response = RemoteHttpResponse::new(
        200,
        vec![
            ("content-type".to_owned(), b"text/plain".to_vec()),
            ("set-cookie".to_owned(), b"a".to_vec()),
            ("set-cookie".to_owned(), b"b".to_vec()),
        ],
        b"hello".to_vec(),
    );
    assert_eq!(response.status(), 200);
    assert_eq!(response.header("Content-Type").as_deref(), Some("text/plain"));
    assert_eq!(response.header("Set-Cookie"), None);
    assert_eq!(response.header("X-Missing"), None);
    assert_eq!(response.into_body(), b"hello".to_vec());
}

fn niconico() -> NicoNicoSourceManager {
    NicoNicoSourceManager::new(NicoNicoSourceOptions::default_options(), 10, 10).unwrap()
}

#[test]
fn niconico_requests_carry_the_control_headers() {
    let manager = niconico();
    let route = NicoNicoRoute { video_id: "sm9".to_owned() };
    let watch = manager.watch_request(&route, 1_700_000_000_000).unwrap();
    assert_eq!(
        watch.url(),
        "https://www.nicovideo.jp/api/watch/v3_guest/sm9?actionTrackId=AAAAAAAAAA_1700000000000"
    );
    let names: Vec<&str> = watch.headers().iter().map(|h| h.0.as_str()).collect();
    assert_eq!(names, vec!["user-agent", "x-frontend-id", "x-frontend-version"]);
    assert_eq!(
        manager.watch_request(&NicoNicoRoute { video_id: "bad!".to_owned() }, 1).err().unwrap().kind(),
        NicoNicoErrorKind::UnsupportedRoute
    );
    let context = NicoNicoPlaybackContext {
        watch_track_id: "abc def".to_owned(),
        access_right_key: "key".to_owned(),
        video_id: "video-h264-360p".to_owned(),
        audio_id: "audio-aac-128kbps".to_owned(),
    };
    let access = manager.access_right_request(&route, &context).unwrap();
    assert_eq!(
        access.url(),
        "https://nvapi.nicovideo.jp/v1/watch/sm9/access-rights/hls?actionTrackId=abc+def"
    );
    assert_eq!(
        std::str::from_utf8(access.body()).unwrap(),
        r#"{"outputs":[["video-h264-360p","audio-aac-128kbps"]]}"#
    );
    assert_eq!(access.method(), RemoteHttpMethod::Post);
    let last = access.headers().last().unwrap();
    assert_eq!(last.0, "x-request-with");
    let escaped = NicoNicoPlaybackContext {
        watch_track_id: "abc def".to_owned(),
        access_right_key: "key".to_owned(),
        video_id: "v\"\\\n\u{1}é".to_owned(),
        audio_id: "audio-aac-128kbps".to_owned(),
    };
    let access = manager.access_right_request(&route, &escaped).unwrap();
    assert_eq!(
        std::str::from_utf8(access.body()).unwrap(),
        "{\"outputs\":[[\"v\\\"\\\\\\n\\u0001é\",\"audio-aac-128kbps\"]]}"
    );
    let mut bad_key = context;
    bad_key.access_right_key = "a\nb".to_owned();
    assert_eq!(
        manager.access_right_request(&route, &bad_key).err().unwrap().kind(),
        NicoNicoErrorKind::InvalidResponse
    );
    let auth = NicoNicoAuthentication::new_user_session("session".to_owned()).unwrap();
    let signed_in =
        NicoNicoSourceManager::with_authentication(NicoNicoSourceOptions::default_options(), auth, 10, 10)
            .unwrap();
    let watch = signed_in.watch_request(&route, 5).unwrap();
    assert!(watch.url().contains("/v3/sm9"));
    assert_eq!(
        watch.headers().last().unwrap(),
        &("cookie".to_owned(), "user_session=session".to_owned())
    );
    let media = manager.media_request("https://delivery.domand.nicovideo.jp/a.m3u8", 100).unwrap();
    assert_eq!(media.headers().len(), 1);
    assert_eq!(
        manager.media_request("http://127.0.0.1/a.m3u8", 100).err().unwrap().kind(),
        NicoNicoPlaybackErrorKind::InvalidPlaylist
    );
}

#[test]
fn transport_faults_are_classified_and_only_connection_failures_retried() {
    let outcome = |fault| match transport_outcome(fault) {
        CallOutcome::TransportFailure { retriable, kind } => (retriable, kind),
        CallOutcome::Response { .. } => panic!("a fault is no response"),
    };
    assert_eq!(outcome(TransportFault::Timeout), (true, RemoteHttpErrorKind::Timeout));
    assert_eq!(
        outcome(TransportFault::Io(IoFaultKind::ConnectionReset)),
        (true, RemoteHttpErrorKind::Transport)
    );
    assert_eq!(
        outcome(TransportFault::Io(IoFaultKind::Other)),
        (false, RemoteHttpErrorKind::Transport)
    );
    assert_eq!(
        outcome(TransportFault::BlockedDestination),
        (false, RemoteHttpErrorKind::DestinationDenied)
    );
    assert_eq!(outcome(TransportFault::BadUri), (false, RemoteHttpErrorKind::InvalidRequest));
    assert_eq!(outcome(TransportFault::Http), (false, RemoteHttpErrorKind::InvalidRequest));
    assert_eq!(
        outcome(TransportFault::BodyExceedsLimit),
        (false, RemoteHttpErrorKind::RequestTooLarge)
    );
    assert_eq!(outcome(TransportFault::Other), (false, RemoteHttpErrorKind::Transport));
}
