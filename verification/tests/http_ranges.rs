use mantle_media::http_policy::{
    accept_range_response, check_media_url, next_range, parse_content_length, range_header_value, range_window_end,
    read_validator, seek_target, RangeResponse, SeekOrigin, Validator, ValidatorKind,
};

fn response(range: &str, length: &str, body: u64) -> RangeResponse {
    RangeResponse {
        status: 206,
        content_encoding: Vec::new(),
        content_range: vec![range.as_bytes().to_vec()],
        content_length: vec![length.as_bytes().to_vec()],
        body_length: Some(body),
        etag: vec![b"\"v1\"".to_vec()],
        last_modified: Vec::new(),
    }
}

#[test]
fn range_windows_stop_at_the_source_limit() {
    assert_eq!(range_window_end(0, 100, 1000), 99);
    assert_eq!(range_window_end(950, 100, 1000), 999);
    assert_eq!(range_window_end(u64::MAX - 5, 100, u64::MAX), u64::MAX - 1);
    assert_eq!(range_window_end(7, 0, 1000), 7);
}

#[test]
fn range_headers_name_both_ends() {
    assert_eq!(range_header_value(0, 99), "bytes=0-99");
    assert_eq!(range_header_value(1024, 2047), "bytes=1024-2047");
}

#[test]
fn seeks_stay_within_the_source() {
    assert_eq!(seek_target(10, 100, SeekOrigin::Start(40)), Ok(40));
    assert_eq!(seek_target(10, 100, SeekOrigin::Current(-10)), Ok(0));
    assert_eq!(seek_target(10, 100, SeekOrigin::End(-1)), Ok(99));
    assert_eq!(seek_target(10, 100, SeekOrigin::End(0)), Ok(100));
    assert_eq!(seek_target(10, 100, SeekOrigin::Current(-11)), Err("HTTP seek is outside the source"));
    assert_eq!(seek_target(10, 100, SeekOrigin::Start(101)), Err("HTTP seek is outside the source"));
}

#[test]
fn validators_prefer_strong_etags() {
    let strong = read_validator(&vec![b"\"abc\"".to_vec()], &vec![b"Mon".to_vec()]).unwrap();
    assert_eq!(strong, Some(Validator { kind: ValidatorKind::ETag, value: "\"abc\"".to_owned() }));
    let weak = read_validator(&vec![b"W/\"abc\"".to_vec()], &vec![b"Mon".to_vec()]).unwrap();
    assert_eq!(weak, Some(Validator { kind: ValidatorKind::LastModified, value: "Mon".to_owned() }));
    assert_eq!(read_validator(&Vec::new(), &Vec::new()).unwrap(), None);
    assert_eq!(
        read_validator(&vec![b"a".to_vec(), b"b".to_vec()], &Vec::new()).unwrap_err(),
        "duplicate etag"
    );
    assert_eq!(
        read_validator(&vec![vec![0xff]], &Vec::new()).unwrap_err(),
        "ETag is not valid ASCII"
    );
    assert_eq!(
        read_validator(&Vec::new(), &vec![b"a".to_vec(), b"b".to_vec()]).unwrap_err(),
        "duplicate last-modified"
    );
    assert_eq!(
        read_validator(&Vec::new(), &vec![vec![0x01]]).unwrap_err(),
        "Last-Modified is not valid ASCII"
    );
}

#[test]
fn content_lengths_are_single_decimal_numbers() {
    assert_eq!(parse_content_length(&vec![b"100".to_vec()]), Ok(100));
    assert_eq!(parse_content_length(&Vec::new()).unwrap_err(), "missing content-length");
    assert_eq!(
        parse_content_length(&vec![b"1".to_vec(), b"1".to_vec()]).unwrap_err(),
        "duplicate content-length"
    );
    assert_eq!(
        parse_content_length(&vec![b"1x".to_vec()]).unwrap_err(),
        "invalid HTTP numeric header"
    );
}

#[test]
fn range_responses_are_accepted_when_consistent() {
    let accepted =
        accept_range_response(0, 0, &None, 1000, 99, &response("bytes 0-99/1000", "100", 100))
            .unwrap();
    assert_eq!(accepted.source_len, 1000);
    assert_eq!(accepted.remaining, 100);
    assert_eq!(
        accepted.validator,
        Some(Validator { kind: ValidatorKind::ETag, value: "\"v1\"".to_owned() })
    );

    let tail = accept_range_response(
        900,
        1000,
        &accepted.validator,
        1000,
        999,
        &response("bytes 900-999/1000", "100", 100),
    )
    .unwrap();
    assert_eq!(tail.remaining, 100);
}

#[test]
fn range_responses_name_each_inconsistency() {
    let mut wrong_status = response("bytes 0-99/1000", "100", 100);
    wrong_status.status = 200;
    assert_eq!(
        accept_range_response(0, 0, &None, 1000, 99, &wrong_status).unwrap_err(),
        "HTTP range request returned status 200, expected 206"
    );
    let mut encoded = response("bytes 0-99/1000", "100", 100);
    encoded.content_encoding = vec![b"gzip".to_vec()];
    assert_eq!(
        accept_range_response(0, 0, &None, 1000, 99, &encoded).unwrap_err(),
        "HTTP range response uses a non-identity content encoding"
    );
    assert_eq!(
        accept_range_response(5, 0, &None, 1000, 99, &response("bytes 0-99/1000", "100", 100))
            .unwrap_err(),
        "Content-Range begins at 0, expected 5"
    );
    assert_eq!(
        accept_range_response(0, 0, &None, 500, 99, &response("bytes 0-99/1000", "100", 100))
            .unwrap_err(),
        "HTTP source length 1000 is outside the configured limit 500"
    );
    assert_eq!(
        accept_range_response(0, 2000, &None, 5000, 99, &response("bytes 0-99/1000", "100", 100))
            .unwrap_err(),
        "HTTP source length changed from 2000 to 1000"
    );
    assert_eq!(
        accept_range_response(0, 0, &None, 1000, 199, &response("bytes 0-99/1000", "100", 100))
            .unwrap_err(),
        "Content-Range ends at 99, expected 199"
    );
    assert_eq!(
        accept_range_response(0, 0, &None, 1000, 99, &response("bytes 0-99/1000", "100", 99))
            .unwrap_err(),
        "Content-Length does not match the 100-byte range"
    );
    let other = Some(Validator { kind: ValidatorKind::ETag, value: "\"v0\"".to_owned() });
    assert_eq!(
        accept_range_response(0, 1000, &other, 1000, 99, &response("bytes 0-99/1000", "100", 100))
            .unwrap_err(),
        "HTTP source validator changed between ranges"
    );
}

#[test]
fn media_urls_and_next_ranges() {
    assert!(check_media_url("https://cdn.test/a.mp3").is_ok());
    assert_eq!(check_media_url("not a url").err(), Some("invalid HTTP media URL"));
    assert_eq!(
        check_media_url("ftp://cdn.test/a.mp3").err(),
        Some("HTTP media URL must use http or https and include an authority")
    );
    assert_eq!(
        check_media_url("https://user@cdn.test/a.mp3").err(),
        Some("HTTP media URL must not contain user information")
    );
    assert_eq!(next_range(0, 0, 100, 1000), Some((0, 99)));
    assert_eq!(next_range(900, 1000, 256, 1000), Some((900, 999)));
    assert_eq!(next_range(1000, 1000, 256, 1000), None);
}
