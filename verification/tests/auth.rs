use arcrelay_web_gateway::addr::{IpAddr, Ipv4Addr, Ipv6Addr};
use arcrelay_web_gateway::api_error::{ApiError, FileError, FileErrorKind};
use arcrelay_web_gateway::auth_attempts::{
    AuthAttempts, ATTEMPT_WINDOW, MAX_FAILED_ATTEMPTS_PER_MINUTE,
};
use arcrelay_web_gateway::cookies::{cookie_for, cookie_token, session_cookie};
use arcrelay_web_gateway::gateway::{
    address_family, authorized_share, begin_unlock, finish_unlock, lock, logout, metadata_share,
    preview_share, relative_path_depth, share_view, shares, site, text_preview_bytes,
    thumbnail_dimension, thumbnail_headers, thumbnail_headers_with, GatewayState,
};
use arcrelay_web_gateway::session::SessionStore;
use arcrelay_web_gateway::shares::{SharedDirectory, WebAccessMode, WebSharePolicy};
use arcrelay_web_gateway::WebGatewaySettings;
use axum::http::{header, HeaderMap, HeaderValue, StatusCode};

const SECOND: u128 = 1_000_000_000;

fn v4(a: u8, b: u8, c: u8, d: u8) -> IpAddr {
    IpAddr::V4(Ipv4Addr::new(a, b, c, d))
}

fn share(mode: WebAccessMode) -> SharedDirectory {
    SharedDirectory {
        id: "share-id".to_string(),
        name: "Films".to_string(),
        web: WebSharePolicy {
            slug: "films".to_string(),
            mode,
            credential_revision: 3,
            allow_preview: true,
            allow_download: false,
        },
    }
}

fn state() -> GatewayState {
    GatewayState::new(
        WebGatewaySettings {
            enabled: true,
            site_name: "Test Host".to_string(),
            ..WebGatewaySettings::default()
        },
        "test",
    )
}

fn with_cookie(value: &str) -> HeaderMap {
    let mut headers = HeaderMap::new();
    headers.insert(header::COOKIE, HeaderValue::from_str(value).unwrap());
    headers
}

fn file_error(kind: FileErrorKind, message: &str) -> FileError {
    FileError {
        kind,
        code: "files.some_code".to_string(),
        message: message.to_string(),
    }
}

#[test]
fn password_failures_are_limited_before_an_expensive_hash() {
    let mut state = state();
    let ip = v4(192, 168, 1, 20);
    for _ in 0..MAX_FAILED_ATTEMPTS_PER_MINUTE {
        state.failed_auth.record_auth_failure(ip, "share-id", 0);
    }
    assert!(state.failed_auth.auth_rate_limited(ip, "share-id", 0));
    let locked = share(WebAccessMode::Password);
    let error = begin_unlock(&mut state.failed_auth, Some(&locked), ip, 0).unwrap_err();
    assert_eq!(error.status, StatusCode::TOO_MANY_REQUESTS.as_u16());
    assert_eq!(error.code, "web_gateway.rate_limited");
    assert_eq!(error.message, "too many attempts; try again later");
}

#[test]
fn failures_count_for_a_minute() {
    let mut attempts = AuthAttempts::default();
    let ip = v4(10, 0, 0, 1);
    for step in 0..5u128 {
        assert!(!attempts.auth_rate_limited(ip, "a", step));
        attempts.record_auth_failure(ip, "a", step);
    }
    assert!(attempts.auth_rate_limited(ip, "a", 5));
    assert!(!attempts.auth_rate_limited(ip, "b", 5));
    assert!(!attempts.auth_rate_limited(v4(10, 0, 0, 2), "a", 5));
    assert!(attempts.auth_rate_limited(ip, "a", ATTEMPT_WINDOW - 1));
    assert!(!attempts.auth_rate_limited(ip, "a", ATTEMPT_WINDOW));
    attempts.record_auth_failure(ip, "a", ATTEMPT_WINDOW);
    assert!(attempts.auth_rate_limited(ip, "a", ATTEMPT_WINDOW));
    attempts.clear_auth_failures(ip, "a");
    assert!(!attempts.auth_rate_limited(ip, "a", ATTEMPT_WINDOW));
}

#[test]
fn password_unlock_sets_http_only_cookie_and_authorizes_share() {
    let mut state = state();
    let mut sessions = SessionStore::default();
    let locked = share(WebAccessMode::Password);
    let ip = v4(127, 0, 0, 1);
    let request = HeaderMap::new();
    assert!(begin_unlock(&mut state.failed_auth, Some(&locked), ip, 0).is_ok());
    let mut response = HeaderMap::new();
    finish_unlock(
        &mut state,
        &mut sessions,
        &request,
        &mut response,
        &locked.id,
        Some((locked.id.clone(), locked.web.credential_revision)),
        ip,
        0,
    )
    .unwrap();
    let set_cookie = response[header::SET_COOKIE].to_str().unwrap();
    assert!(set_cookie.contains("HttpOnly; SameSite=Strict"));
    assert!(set_cookie.ends_with("; Path=/; HttpOnly; SameSite=Strict; Max-Age=86400"));
    let cookie = set_cookie.split(';').next().unwrap();

    let request = with_cookie(cookie);
    let opened = authorized_share(&state, &mut sessions, &request, ip, Some(locked.clone()), 1);
    assert_eq!(opened, Ok(locked.clone()));
    let stranger = v4(127, 0, 0, 2);
    let error =
        authorized_share(&state, &mut sessions, &request, stranger, Some(locked.clone()), 1)
            .unwrap_err();
    assert_eq!(error.status, 401);
    assert_eq!(error.message, "this shared directory must be unlocked");
}

#[test]
fn a_wrong_password_is_counted_and_refused() {
    let mut state = state();
    let mut sessions = SessionStore::default();
    let ip = v4(10, 0, 0, 1);
    let mut response = HeaderMap::new();
    for _ in 0..5 {
        let error = finish_unlock(
            &mut state,
            &mut sessions,
            &HeaderMap::new(),
            &mut response,
            "share-id",
            None,
            ip,
            9,
        )
        .unwrap_err();
        assert_eq!(error.status, StatusCode::UNAUTHORIZED.as_u16());
        assert_eq!(error.code, "web_gateway.unauthenticated");
        assert_eq!(
            error.message,
            "password is incorrect or the share is unavailable"
        );
    }
    assert!(response.is_empty());
    assert_eq!(sessions.len(), 0);
    assert!(state.failed_auth.auth_rate_limited(ip, "share-id", 9));
    finish_unlock(
        &mut state,
        &mut sessions,
        &HeaderMap::new(),
        &mut response,
        "share-id",
        Some(("share-id".to_string(), 3)),
        ip,
        9,
    )
    .unwrap();
    assert!(!state.failed_auth.auth_rate_limited(ip, "share-id", 9));
    assert_eq!(sessions.len(), 1);
}

#[test]
fn attempts_at_shares_without_passwords_are_answered_alike() {
    let mut failed = AuthAttempts::default();
    let ip = v4(10, 0, 0, 1);
    let public = share(WebAccessMode::Public);
    let disabled = share(WebAccessMode::Disabled);
    let absent = begin_unlock(&mut failed, None, ip, 0).unwrap_err();
    assert_eq!(absent.status, 401);
    assert_eq!(
        absent,
        begin_unlock(&mut failed, Some(&public), ip, 0).unwrap_err()
    );
    assert_eq!(
        absent,
        begin_unlock(&mut failed, Some(&disabled), ip, 0).unwrap_err()
    );
}

#[test]
fn locking_closes_the_share_again() {
    let mut state = state();
    let mut sessions = SessionStore::default();
    let locked = share(WebAccessMode::Password);
    let ip = v4(10, 0, 0, 1);
    let mut response = HeaderMap::new();
    finish_unlock(
        &mut state,
        &mut sessions,
        &HeaderMap::new(),
        &mut response,
        "share-id",
        Some(("share-id".to_string(), 3)),
        ip,
        0,
    )
    .unwrap();
    let cookie = response[header::SET_COOKIE].to_str().unwrap().to_string();
    let request = with_cookie(cookie.split(';').next().unwrap());
    let token = session_cookie(&request);
    assert!(
        share_view(&state, &mut sessions, &locked, token.as_deref(), ip, 1).unlocked
    );
    assert_eq!(lock(&mut sessions, &request, None).unwrap_err().status, 404);
    assert!(lock(&mut sessions, &request, Some(&locked)).is_ok());
    assert!(
        !share_view(&state, &mut sessions, &locked, token.as_deref(), ip, 1).unlocked
    );
    assert_eq!(sessions.len(), 1);
    let mut response = HeaderMap::new();
    logout(&mut sessions, &request, &mut response);
    assert_eq!(sessions.len(), 0);
    assert_eq!(
        response[header::SET_COOKIE],
        "arcrelay_web_session=; Path=/; HttpOnly; SameSite=Strict; Max-Age=0"
    );
}

#[test]
fn shares_are_listed_with_their_state() {
    let state = state();
    let mut sessions = SessionStore::default();
    let ip = v4(10, 0, 0, 1);
    let idle = state.idle_lifetime();
    assert_eq!(idle, 720 * 60 * SECOND);
    let token = sessions.create_or_authorize(None, ip, "share-id", 3, idle, 0);
    let mut stale = share(WebAccessMode::Password);
    stale.web.credential_revision = 4;
    let listed = vec![
        share(WebAccessMode::Public),
        share(WebAccessMode::Password),
        stale,
    ];
    let request = with_cookie(&format!("theme=dark; arcrelay_web_session={token}"));
    let views = shares(&state, &mut sessions, &listed, &request, ip, 1);
    assert_eq!(views.len(), 3);
    assert_eq!(views[0].name, "Films");
    assert_eq!(views[0].slug, "films");
    assert_eq!(views[0].mode, WebAccessMode::Public);
    assert!(views[0].allow_preview);
    assert!(!views[0].allow_download);
    assert!(views[0].unlocked);
    assert!(views[1].unlocked);
    assert!(!views[2].unlocked);
    let views = shares(&state, &mut sessions, &listed, &HeaderMap::new(), ip, 1);
    assert!(views[0].unlocked);
    assert!(!views[1].unlocked);
}

#[test]
fn the_site_names_itself() {
    let view = site(&state());
    assert_eq!(view.site_name, "Test Host");
    assert_eq!(view.version, "test");
    assert!(view.files_enabled);
}

#[test]
fn previews_and_metadata_follow_the_share() {
    let state = state();
    let mut sessions = SessionStore::default();
    let ip = v4(10, 0, 0, 1);
    let none = HeaderMap::new();
    let public = share(WebAccessMode::Public);
    let mut hidden = share(WebAccessMode::Public);
    hidden.web.allow_preview = false;
    let locked = share(WebAccessMode::Password);
    assert!(preview_share(&state, &mut sessions, &none, ip, Some(public.clone()), 0).is_ok());
    let error =
        preview_share(&state, &mut sessions, &none, ip, Some(hidden), 0).unwrap_err();
    assert_eq!(error.status, 403);
    assert_eq!(error.code, "web_gateway.permission_denied");
    assert_eq!(error.message, "this operation is not permitted for the share");
    let error =
        preview_share(&state, &mut sessions, &none, ip, Some(locked.clone()), 0).unwrap_err();
    assert_eq!(error.status, 401);
    let error = preview_share(&state, &mut sessions, &none, ip, None, 0).unwrap_err();
    assert_eq!(error.status, 404);
    assert_eq!(error.message, "share or file not found");

    let ask = |sessions: &mut SessionStore, share, path: &str| {
        metadata_share(&state, sessions, &none, ip, share, path, 0).map_err(|e| e.status)
    };
    assert_eq!(ask(&mut sessions, Some(locked.clone()), ""), Ok(locked.clone()));
    assert_eq!(ask(&mut sessions, Some(locked), "a"), Err(401));
    assert_eq!(ask(&mut sessions, None, ""), Err(404));
    assert_eq!(ask(&mut sessions, Some(public.clone()), "a"), Ok(public));
}

#[test]
fn cookies_are_read_as_tokens() {
    let token = "0123456789abcdefABCDEF0123456789abcdef0123456789abcdef0123456789";
    assert_eq!(token.len(), 64);
    let cookie = format!("arcrelay_web_session={token}");
    assert_eq!(cookie_token(&cookie), Some(token.to_string()));
    assert_eq!(
        cookie_token(&format!("a=b;\t{cookie} ; c=d")),
        Some(token.to_string())
    );
    assert_eq!(cookie_token(&format!("x{cookie}")), None);
    assert_eq!(cookie_token(&cookie[..cookie.len() - 1]), None);
    assert_eq!(cookie_token(&format!("{cookie}0")), None);
    assert_eq!(cookie_token(&cookie.replace("0123", "01g3")), None);
    assert_eq!(
        cookie_token(&format!("arcrelay_web_session=; {cookie}")),
        None
    );
    assert_eq!(cookie_token(""), None);
    assert_eq!(session_cookie(&HeaderMap::new()), None);
    assert_eq!(
        session_cookie(&with_cookie(&cookie)),
        Some(token.to_string())
    );
    let kept = cookie_for(token);
    assert_eq!(
        cookie_token(kept.split(';').next().unwrap()),
        Some(token.to_string())
    );
}

#[test]
fn internal_errors_hide_details_and_return_a_correlation_id() {
    let error = ApiError::bad_request(file_error(
        FileErrorKind::Serialization,
        "expected value: private-data",
    ));
    assert_eq!(error.status, StatusCode::INTERNAL_SERVER_ERROR.as_u16());
    assert_eq!(error.message, "web service is temporarily unavailable");
    assert!(error.error_id.as_ref().is_some_and(|value| !value.is_empty()));
    assert!(!format!("{error:?}").contains("private-data"));
}

#[test]
fn resource_exhaustion_uses_actionable_http_statuses() {
    assert_eq!(
        ApiError::bad_request(file_error(
            FileErrorKind::DirectoryQueryTooBroad,
            "too many entries"
        ))
        .status,
        StatusCode::UNPROCESSABLE_ENTITY.as_u16()
    );
    assert_eq!(
        ApiError::bad_request(file_error(FileErrorKind::FileTooLarge, "too large")).status,
        StatusCode::PAYLOAD_TOO_LARGE.as_u16()
    );
    assert_eq!(
        ApiError::bad_request(file_error(FileErrorKind::InsufficientStorage, "disk full")).status,
        StatusCode::INSUFFICIENT_STORAGE.as_u16()
    );
}

#[test]
fn file_errors_keep_their_code_and_message() {
    let expected = [
        (FileErrorKind::Invalid, StatusCode::BAD_REQUEST),
        (FileErrorKind::NotFound, StatusCode::NOT_FOUND),
        (FileErrorKind::DirectorySnapshotExpired, StatusCode::GONE),
        (FileErrorKind::Conflict, StatusCode::CONFLICT),
        (FileErrorKind::PermissionDenied, StatusCode::FORBIDDEN),
    ];
    for (kind, status) in expected {
        let error = ApiError::bad_request(file_error(kind, "what happened"));
        assert_eq!(error.status, status.as_u16());
        assert_eq!(error.code, "files.some_code");
        assert_eq!(error.message, "what happened");
        assert_eq!(error.error_id, None);
    }
    for kind in [
        FileErrorKind::Unavailable,
        FileErrorKind::Io,
        FileErrorKind::PasswordHash,
        FileErrorKind::Task,
        FileErrorKind::Image,
    ] {
        let error = ApiError::bad_request_with(file_error(kind, "secret"), "id".to_string());
        assert_eq!(error.status, 500);
        assert_eq!(error.code, "files.some_code");
        assert_eq!(error.error_id, Some("id".to_string()));
    }
}

#[test]
fn statuses_have_their_codes() {
    let expected = [
        (400, "web_gateway.invalid_request"),
        (401, "web_gateway.unauthenticated"),
        (403, "web_gateway.permission_denied"),
        (404, "web_gateway.not_found"),
        (409, "web_gateway.conflict"),
        (410, "web_gateway.expired"),
        (429, "web_gateway.rate_limited"),
        (500, "web_gateway.internal"),
        (418, "web_gateway.internal"),
    ];
    for (status, code) in expected {
        let error = ApiError::new(status, "m");
        assert_eq!((error.status, error.code.as_str()), (status, code));
        assert_eq!(error.message, "m");
    }
    let error = ApiError::internal();
    assert_eq!(error.code, "web_gateway.internal");
    assert_eq!(error.error_id.map(|id| id.len()), Some(32));
}

#[test]
fn a_refused_range_names_the_length() {
    let error = ApiError::range(10);
    assert_eq!(error.status, 416);
    assert_eq!(error.code, "web_gateway.invalid_range");
    let mut response = HeaderMap::new();
    error.apply_headers(&mut response);
    assert_eq!(response[header::CONTENT_RANGE], "bytes */10");
    let mut response = HeaderMap::new();
    ApiError::not_found().apply_headers(&mut response);
    assert!(response.is_empty());
}

#[test]
fn thumbnails_are_kept_for_a_while() {
    let mut response = HeaderMap::new();
    assert!(thumbnail_headers(&mut response, "image/webp").is_ok());
    assert_eq!(response[header::CONTENT_TYPE], "image/webp");
    assert_eq!(response[header::CACHE_CONTROL], "private, max-age=300");
    let mut response = HeaderMap::new();
    let error = thumbnail_headers(&mut response, "image/\nwebp").unwrap_err();
    assert_eq!(error.status, 500);
    assert!(error.error_id.is_some());
    assert!(response.is_empty());
    let error =
        thumbnail_headers_with(&mut response, "\u{7f}", "id".to_string()).unwrap_err();
    assert_eq!(error.error_id, Some("id".to_string()));
    assert_eq!(thumbnail_dimension(None), 512);
    assert_eq!(thumbnail_dimension(Some(64)), 64);
    assert_eq!(text_preview_bytes(usize::MAX), 512 * 1024);
    assert_eq!(text_preview_bytes(10), 10);
}

#[test]
fn paths_and_addresses_are_described_for_the_log() {
    assert_eq!(relative_path_depth(""), 0);
    assert_eq!(relative_path_depth("/"), 0);
    assert_eq!(relative_path_depth("a"), 1);
    assert_eq!(relative_path_depth("/a//b/"), 2);
    assert_eq!(relative_path_depth("a/b/c"), 3);
    assert_eq!(address_family(v4(1, 2, 3, 4)), "ipv4");
    assert_eq!(address_family(IpAddr::V6(Ipv6Addr { bits: 1 })), "ipv6");
}
