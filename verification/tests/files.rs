use arcrelay_web_gateway::api_error::{FileError, FileErrorKind};
use arcrelay_web_gateway::assets::{asset_headers, asset_headers_with, asset_key};
use arcrelay_web_gateway::content::{
    content_file, content_file_with, content_permission, content_plan, content_reply,
    disposition_of, etag_of, ContentPart,
};
use arcrelay_web_gateway::dates::{date_of, is_datable, is_unchanged_since, DATE_LIMIT, SECOND};
use arcrelay_web_gateway::headers::has_room;
use arcrelay_web_gateway::ranges::{if_range_matches, parse_range, ByteRange};
use arcrelay_web_gateway::security_headers::security_headers;
use arcrelay_web_gateway::shares::{
    FileEntry, PreviewKind, SharedDirectory, WebAccessMode, WebSharePolicy,
};
use axum::http::{header, HeaderMap, HeaderName, HeaderValue, StatusCode};

const NOVEMBER_1994: i128 = 784_111_777;

fn share(allow_preview: bool, allow_download: bool) -> SharedDirectory {
    SharedDirectory {
        id: "id".to_string(),
        name: "name".to_string(),
        web: WebSharePolicy {
            slug: "slug".to_string(),
            mode: WebAccessMode::Public,
            credential_revision: 0,
            allow_preview,
            allow_download,
        },
    }
}

fn movie() -> FileEntry {
    FileEntry {
        name: "movie.mp4".to_string(),
        media_type: "video/mp4".to_string(),
        preview_kind: PreviewKind::Video,
        modified_at_ms: 255,
    }
}

fn with_header(name: HeaderName, value: &str) -> HeaderMap {
    let mut headers = HeaderMap::new();
    headers.insert(name, HeaderValue::from_str(value).unwrap());
    headers
}

#[test]
fn parses_media_ranges() {
    assert_eq!(
        parse_range(Some("bytes=10-19"), 100).unwrap(),
        Some(ByteRange { start: 10, end: 19 })
    );
    assert_eq!(
        parse_range(Some("bytes=-10"), 100).unwrap(),
        Some(ByteRange { start: 90, end: 99 })
    );
    assert!(parse_range(Some("bytes=100-"), 100).is_err());
    assert!(parse_range(Some("bytes=0-1,4-5"), 100).is_err());
}

#[test]
fn ranges_are_cut_to_the_file() {
    let range = |value: &str, total: u64| {
        parse_range(Some(value), total)
            .map(|range| range.map(|range| (range.start, range.end)))
            .map_err(|error| error.status)
    };
    assert_eq!(parse_range(None, 100).unwrap(), None);
    assert_eq!(range("bytes=0-", 100), Ok(Some((0, 99))));
    assert_eq!(range("bytes=5-1000", 100), Ok(Some((5, 99))));
    assert_eq!(range("bytes=99-99", 100), Ok(Some((99, 99))));
    assert_eq!(range("bytes=-1000", 100), Ok(Some((0, 99))));
    assert_eq!(range("bytes=+1-+2", 100), Ok(Some((1, 2))));
    assert_eq!(
        range("bytes=0-18446744073709551615", u64::MAX),
        Ok(Some((0, u64::MAX - 1)))
    );
    for refused in [
        "bytes=-0",
        "bytes=-",
        "bytes=",
        "bytes=7",
        "bytes=5-4",
        "bytes=a-b",
        "bytes=1-b",
        "bytes= 1-2",
        "bytes=1-2 ",
        "bytes=--1",
        "bytes=18446744073709551616-",
        "Bytes=0-1",
        "items=0-1",
        "",
    ] {
        assert_eq!(range(refused, 100), Err(416), "{refused}");
    }
    assert_eq!(range("bytes=0-0", 0), Err(416));
    assert_eq!(range("bytes=-1", 0), Err(416));
}

#[test]
fn streams_valid_ranges_and_rejects_invalid_ranges() {
    let content = b"0123456789";
    let found = Some((content.len() as u64, NOVEMBER_1994 * SECOND));
    let file = content_file(&share(true, true), false, Ok(movie())).unwrap();
    let ranged = with_header(header::RANGE, "bytes=2-5");
    let reply = content_reply(file.clone(), &ranged, "GET", found).unwrap();
    assert_eq!(reply.part.status, StatusCode::PARTIAL_CONTENT.as_u16());
    let mut response = HeaderMap::new();
    reply.apply_headers(&mut response);
    assert_eq!(response[header::CONTENT_RANGE], "bytes 2-5/10");
    assert_eq!(response[header::CONTENT_LENGTH], "4");
    let start = reply.part.start as usize;
    let length = reply.part.content_length as usize;
    assert_eq!(&content[start..start + length], b"2345");

    let invalid = with_header(header::RANGE, "bytes=20-30");
    let error = content_reply(file, &invalid, "GET", found).unwrap_err();
    assert_eq!(error.status, StatusCode::RANGE_NOT_SATISFIABLE.as_u16());
    let mut response = HeaderMap::new();
    error.apply_headers(&mut response);
    assert_eq!(response[header::CONTENT_RANGE], "bytes */10");
}

#[test]
fn a_whole_file_is_sent_with_its_headers() {
    let file = content_file(&share(true, false), false, Ok(movie())).unwrap();
    let reply =
        content_reply(file, &HeaderMap::new(), "GET", Some((10, NOVEMBER_1994 * SECOND + 5)))
            .unwrap();
    assert!(reply.has_body);
    assert_eq!(
        reply.part,
        ContentPart {
            status: 200,
            start: 0,
            end: 9,
            content_length: 10
        }
    );
    let mut response = HeaderMap::new();
    reply.apply_headers(&mut response);
    assert_eq!(response.len(), 6);
    assert_eq!(response[header::ACCEPT_RANGES], "bytes");
    assert_eq!(response[header::CONTENT_TYPE], "video/mp4");
    assert_eq!(response[header::CONTENT_LENGTH], "10");
    assert_eq!(response[header::ETAG], "\"a-ff\"");
    assert_eq!(
        response[header::LAST_MODIFIED],
        "Sun, 06 Nov 1994 08:49:37 GMT"
    );
    assert_eq!(
        response[header::CONTENT_DISPOSITION],
        "inline; filename*=UTF-8''movie%2Emp4"
    );
}

#[test]
fn an_empty_file_is_sent_whole() {
    let headers = HeaderMap::new();
    assert_eq!(
        content_plan(&headers, 0, 1, 0).unwrap(),
        ContentPart {
            status: 200,
            start: 0,
            end: 0,
            content_length: 0
        }
    );
    let ranged = with_header(header::RANGE, "bytes=0-");
    assert_eq!(content_plan(&ranged, 0, 1, 0).unwrap_err().status, 416);
}

#[test]
fn a_media_type_that_cannot_be_sent_is_replaced() {
    let mut entry = movie();
    entry.media_type = "video/\r\nmp4".to_string();
    let file = content_file(&share(true, true), true, Ok(entry)).unwrap();
    let reply = content_reply(file, &HeaderMap::new(), "GET", Some((1, 0))).unwrap();
    let mut response = HeaderMap::new();
    reply.apply_headers(&mut response);
    assert_eq!(response[header::CONTENT_TYPE], "application/octet-stream");
    assert_eq!(
        response[header::CONTENT_DISPOSITION],
        "attachment; filename*=UTF-8''movie%2Emp4"
    );
    assert_eq!(
        response[header::LAST_MODIFIED],
        "Thu, 01 Jan 1970 00:00:00 GMT"
    );
}

#[test]
fn files_are_sent_as_the_share_permits() {
    let permitted = |preview, download_allowed, kind, download| {
        content_permission(&share(preview, download_allowed), kind, download)
            .map_err(|error| error.status)
    };
    assert_eq!(permitted(true, false, PreviewKind::Image, false), Ok(true));
    assert_eq!(permitted(true, false, PreviewKind::Audio, false), Ok(true));
    assert_eq!(permitted(true, false, PreviewKind::Video, false), Ok(true));
    assert_eq!(permitted(true, false, PreviewKind::Other, false), Err(403));
    assert_eq!(permitted(true, false, PreviewKind::Image, true), Err(403));
    assert_eq!(permitted(false, true, PreviewKind::Image, false), Ok(false));
    assert_eq!(permitted(false, true, PreviewKind::Image, true), Ok(false));
    assert_eq!(permitted(true, true, PreviewKind::Image, true), Ok(true));
    assert_eq!(permitted(false, false, PreviewKind::Image, false), Err(403));
}

#[test]
fn files_that_are_not_there_are_reported() {
    let failure = || FileError {
        kind: FileErrorKind::NotFound,
        code: "files.not_found".to_string(),
        message: "gone".to_string(),
    };
    let error = content_file(&share(true, true), false, Err(failure())).unwrap_err();
    assert_eq!((error.status, error.message.as_str()), (404, "gone"));
    let internal = FileError {
        kind: FileErrorKind::Io,
        ..failure()
    };
    let error =
        content_file_with(&share(true, true), false, Err(internal), "id".to_string()).unwrap_err();
    assert_eq!(error.status, 500);
    assert_eq!(error.error_id, Some("id".to_string()));
    let file = content_file(&share(true, true), false, Ok(movie())).unwrap();
    let error = content_reply(file, &HeaderMap::new(), "GET", None).unwrap_err();
    assert_eq!(error.status, 404);
    assert_eq!(error.message, "share or file not found");
}

#[test]
fn ranges_depend_on_the_state_of_the_file() {
    let modified = NOVEMBER_1994 * SECOND + 999_999_999;
    let etag = etag_of(10, 255);
    assert_eq!(etag, "\"a-ff\"");
    assert!(if_range_matches(&HeaderMap::new(), &etag, modified));
    let asked = |value: &str| {
        if_range_matches(&with_header(header::IF_RANGE, value), &etag, modified)
    };
    assert!(asked("\"a-ff\""));
    assert!(!asked("\"a-fe\""));
    assert!(!asked("W/\"a-ff\""));
    assert!(asked(&date_of(modified)));
    assert!(asked("Sunday, 06-Nov-94 08:49:37 GMT"));
    assert!(asked("Sun Nov  6 08:49:37 1994"));
    assert!(!asked("Sun, 06 Nov 1994 08:49:36 GMT"));
    assert!(asked("Sun, 06 Nov 1994 08:49:38 GMT"));
    assert!(!asked("yesterday"));
    let mut stale = with_header(header::IF_RANGE, "\"other\"");
    stale.insert(header::RANGE, HeaderValue::from_static("bytes=1-2"));
    assert_eq!(content_plan(&stale, 10, 255, modified).unwrap().status, 200);
    stale.insert(header::IF_RANGE, HeaderValue::from_static("\"a-ff\""));
    assert_eq!(content_plan(&stale, 10, 255, modified).unwrap().status, 206);
}

#[test]
fn dates_have_whole_seconds() {
    assert_eq!(date_of(0), "Thu, 01 Jan 1970 00:00:00 GMT");
    assert_eq!(
        date_of(i128::from(DATE_LIMIT) * SECOND - 1),
        "Fri, 31 Dec 9999 23:59:59 GMT"
    );
    assert!(is_datable(0));
    assert!(!is_datable(-1));
    assert!(!is_datable(i128::from(DATE_LIMIT) * SECOND));
    assert!(is_unchanged_since(5 * SECOND, Some(4)));
    assert!(!is_unchanged_since(5 * SECOND + 1, Some(4)));
    assert!(is_unchanged_since(-1, Some(0)));
    assert!(!is_unchanged_since(-1, None));
}

#[test]
fn names_are_encoded_byte_by_byte() {
    assert_eq!(
        disposition_of(true, false, "Az09"),
        "inline; filename*=UTF-8''Az09"
    );
    assert_eq!(
        disposition_of(true, true, "a b"),
        "attachment; filename*=UTF-8''a%20b"
    );
    assert_eq!(
        disposition_of(false, false, "é\"\n.~"),
        "attachment; filename*=UTF-8''%C3%A9%22%0A%2E%7E"
    );
    assert_eq!(disposition_of(true, false, ""), "inline; filename*=UTF-8''");
}

#[test]
fn a_changed_file_has_another_tag() {
    assert_ne!(etag_of(0x1, 0x23), etag_of(0x12, 0x3));
    assert_ne!(etag_of(10, 255), etag_of(10, 256));
    assert_eq!(
        etag_of(u64::MAX, 0),
        "\"ffffffffffffffff-0\""
    );
}

#[test]
fn every_response_is_protected() {
    let mut response = with_header(header::CACHE_CONTROL, "public");
    response.insert(header::CONTENT_TYPE, HeaderValue::from_static("text/plain"));
    security_headers(&mut response);
    assert_eq!(response.len(), 8);
    assert_eq!(response[header::CACHE_CONTROL], "no-store");
    assert_eq!(response[header::CONTENT_TYPE], "text/plain");
    assert_eq!(response[header::X_CONTENT_TYPE_OPTIONS], "nosniff");
    assert_eq!(response[header::REFERRER_POLICY], "no-referrer");
    assert_eq!(response["x-frame-options"], "DENY");
    assert_eq!(response["cross-origin-resource-policy"], "same-origin");
    assert_eq!(
        response["permissions-policy"],
        "camera=(), microphone=(), geolocation=()"
    );
    assert_eq!(
        response[header::CONTENT_SECURITY_POLICY],
        "default-src 'self'; img-src 'self' data:; media-src 'self'; style-src 'self'; script-src 'self'; object-src 'none'; base-uri 'none'; frame-ancestors 'none'; form-action 'self'"
    );
}

#[test]
fn paths_ask_for_assets() {
    for path in ["", "/", "//", "/files", "files", "/s/films", "s/", "/s/a/b"] {
        assert_eq!(asset_key(path), "web-files.html", "{path}");
    }
    assert_eq!(asset_key("/assets/app.js"), "assets/app.js");
    assert_eq!(asset_key("/files/x"), "files/x");
    assert_eq!(asset_key("/sx"), "sx");
}

#[test]
fn assets_have_their_media_type() {
    let headers_of = |key: &str| {
        let mut response = HeaderMap::new();
        asset_headers(&mut response, key);
        (
            response[header::CONTENT_TYPE].to_str().unwrap().to_string(),
            response[header::CACHE_CONTROL].to_str().unwrap().to_string(),
        )
    };
    let kept = "public, max-age=31536000, immutable".to_string();
    assert_eq!(
        headers_of("web-files.html"),
        ("text/html".to_string(), "no-store".to_string())
    );
    assert_eq!(
        headers_of("assets/style.css"),
        ("text/css".to_string(), kept.clone())
    );
    assert_eq!(
        headers_of("assets/logo.png"),
        ("image/png".to_string(), kept.clone())
    );
    assert_eq!(
        headers_of("assets/unknown"),
        ("application/octet-stream".to_string(), kept)
    );
    let mut response = HeaderMap::new();
    asset_headers_with(&mut response, "x", Some("a\nb"));
    assert_eq!(response[header::CONTENT_TYPE], "application/octet-stream");
}

#[test]
fn header_maps_have_room() {
    let mut headers = HeaderMap::new();
    assert!(has_room(&headers, 6554));
    assert!(!has_room(&headers, 6555));
    headers.insert(header::HOST, HeaderValue::from_static("a"));
    headers.append(header::HOST, HeaderValue::from_static("b"));
    assert!(has_room(&headers, 6553));
    assert!(!has_room(&headers, 6554));
}

#[test]
fn a_date_that_was_sent_allows_ranges() {
    let step = 86_400 * 37 + 12_345;
    for second in (0..DATE_LIMIT).step_by(step) {
        let start = i128::from(second) * SECOND;
        let sent = with_header(header::IF_RANGE, &date_of(start + 999_999_999));
        assert!(if_range_matches(&sent, "", start));
        assert!(if_range_matches(&sent, "", start + 999_999_999));
        assert!(!if_range_matches(&sent, "", start + SECOND + 1));
    }
}

#[test]
fn headers_alone_are_those_of_the_file() {
    let file = content_file(&share(true, true), false, Ok(movie())).unwrap();
    let found = Some((10, NOVEMBER_1994 * SECOND));
    for ranged in [
        HeaderMap::new(),
        with_header(header::RANGE, "bytes=2-5"),
    ] {
        let whole = content_reply(file.clone(), &ranged, "GET", found).unwrap();
        let alone = content_reply(file.clone(), &ranged, "HEAD", found).unwrap();
        assert!(whole.has_body);
        assert!(!alone.has_body);
        assert_eq!(whole.part, alone.part);
        let mut of_whole = HeaderMap::new();
        let mut of_alone = HeaderMap::new();
        whole.apply_headers(&mut of_whole);
        alone.apply_headers(&mut of_alone);
        assert_eq!(of_whole, of_alone);
    }
    let invalid = with_header(header::RANGE, "bytes=20-30");
    assert_eq!(
        content_reply(file.clone(), &invalid, "GET", found),
        content_reply(file, &invalid, "HEAD", found)
    );
}

#[test]
fn names_that_systems_read_differently_still_get_headers() {
    for key in ["//a/b.css", "a\\b.css", "c:b.css"] {
        let mut response = HeaderMap::new();
        asset_headers(&mut response, key);
        assert!(response.contains_key(header::CONTENT_TYPE));
        assert_eq!(
            response[header::CACHE_CONTROL],
            "public, max-age=31536000, immutable"
        );
    }
}
