use arcrelay_web_gateway::addr::{IpAddr, Ipv4Addr, Ipv6Addr};
use arcrelay_web_gateway::api_error::{ApiError, FileError, FileErrorKind};
use arcrelay_web_gateway::assets::{asset_headers, asset_key};
use arcrelay_web_gateway::network_guard::{
    allowed_host, allowed_host_at, guard, guard_at, host_without_port, is_allowed_source,
    requested_address, requested_host, GuardDecision,
};
use arcrelay_web_gateway::security_headers::security_headers;
use arcrelay_web_gateway::WebGatewaySettings;
use axum::http::{header, HeaderMap, HeaderValue, StatusCode};

fn v4(a: u8, b: u8, c: u8, d: u8) -> IpAddr {
    IpAddr::V4(Ipv4Addr::new(a, b, c, d))
}

fn v6(segments: [u16; 8]) -> IpAddr {
    let bits = segments
        .iter()
        .fold(0u128, |bits, segment| (bits << 16) | u128::from(*segment));
    IpAddr::V6(Ipv6Addr { bits })
}

fn settings() -> WebGatewaySettings {
    WebGatewaySettings {
        enabled: true,
        site_name: "Test Host".to_string(),
        allowed_hostnames: vec!["test.local".to_string()],
        ..WebGatewaySettings::default()
    }
}

fn host(value: &str) -> HeaderMap {
    let mut headers = HeaderMap::new();
    headers.insert(header::HOST, HeaderValue::from_str(value).unwrap());
    headers
}

fn decide(source: IpAddr, headers: &HeaderMap, method: &str) -> GuardDecision {
    guard(source, &settings(), headers, method, &vec![])
}

#[test]
fn rejects_public_sources_and_cgnat_by_default() {
    assert!(is_allowed_source(v4(192, 168, 1, 8), false));
    assert!(!is_allowed_source(v4(8, 8, 8, 8), false));
    assert!(!is_allowed_source(v4(100, 64, 1, 2), false));
    assert!(is_allowed_source(v4(100, 64, 1, 2), true));
    assert!(is_allowed_source(
        v6([0xfd12, 0, 0, 0, 0, 0, 0, 1]),
        false
    ));
}

#[test]
fn the_local_networks_have_their_bounds() {
    for allowed in [
        v4(127, 0, 0, 1),
        v4(10, 0, 0, 0),
        v4(10, 255, 255, 255),
        v4(172, 16, 0, 0),
        v4(172, 31, 255, 255),
        v4(192, 168, 255, 255),
        v4(169, 254, 3, 4),
        v6([0, 0, 0, 0, 0, 0, 0, 1]),
        v6([0xfe80, 0, 0, 0, 0, 0, 0, 1]),
        v6([0xfebf, 0xffff, 0, 0, 0, 0, 0, 1]),
        v6([0xfc00, 0, 0, 0, 0, 0, 0, 0]),
        v6([0xfdff, 0xffff, 0, 0, 0, 0, 0, 0]),
    ] {
        assert!(is_allowed_source(allowed, false), "{allowed:?}");
    }
    for refused in [
        v4(11, 0, 0, 0),
        v4(9, 255, 255, 255),
        v4(172, 15, 255, 255),
        v4(172, 32, 0, 0),
        v4(192, 167, 255, 255),
        v4(192, 169, 0, 0),
        v4(169, 253, 0, 0),
        v4(100, 63, 255, 255),
        v4(100, 128, 0, 0),
        v6([0, 0, 0, 0, 0, 0, 0, 2]),
        v6([0xfec0, 0, 0, 0, 0, 0, 0, 1]),
        v6([0xfbff, 0, 0, 0, 0, 0, 0, 1]),
        v6([0x2001, 0xdb8, 0, 0, 0, 0, 0, 1]),
    ] {
        assert!(!is_allowed_source(refused, true), "{refused:?}");
    }
    assert!(is_allowed_source(v4(100, 64, 0, 0), true));
    assert!(is_allowed_source(v4(100, 127, 255, 255), true));
}

#[test]
fn hosts_are_read_without_their_port() {
    assert_eq!(host_without_port("localhost:8767"), Some("localhost"));
    assert_eq!(host_without_port(" test.local "), Some("test.local"));
    assert_eq!(host_without_port("[fd00::1]:80"), Some("fd00::1"));
    assert_eq!(host_without_port("[fd00::1"), None);
    assert_eq!(host_without_port("fd00::1"), Some("fd00:"));
    assert_eq!(host_without_port(""), Some(""));
    assert_eq!(
        requested_host(&host("Test.LOCAL.:80")),
        Some("test.local".to_string())
    );
    assert_eq!(requested_host(&HeaderMap::new()), None);
}

#[test]
fn hosts_are_allowed_by_name_or_address() {
    let configured = vec!["test.local".to_string()];
    let none: Vec<String> = vec![];
    for name in ["localhost", "LOCALHOST.", "127.0.0.1", "::1", "Test.Local"] {
        assert!(allowed_host(name, &configured, &vec![]), "{name}");
    }
    assert!(!allowed_host("evil.example", &configured, &vec![]));
    let own = v4(192, 168, 1, 7);
    let six = v6([0xfd00, 0, 0, 0, 0, 0, 0, 0xa]);
    let local = vec![own, six];
    assert!(allowed_host("192.168.1.7", &none, &local));
    assert!(allowed_host("192.168.1.7.", &none, &local));
    assert!(!allowed_host("192.168.1.8", &none, &local));
    assert!(!allowed_host("192.168.1.007", &none, &local));
    assert!(allowed_host("fd00::A", &none, &local));
    assert!(allowed_host("fd00:0:0::a", &none, &local));
    assert!(!allowed_host("fd00::b", &none, &local));
    assert!(allowed_host_at("x", &none, Some(own), &local));
    assert!(!allowed_host_at("x", &none, None, &local));
}

#[test]
fn requested_addresses_are_read() {
    assert_eq!(
        requested_address(&host("192.168.1.7:80")),
        Some(v4(192, 168, 1, 7))
    );
    assert_eq!(
        requested_address(&host("[FD00::1]:80")),
        Some(v6([0xfd00, 0, 0, 0, 0, 0, 0, 1]))
    );
    assert_eq!(
        requested_address(&host("[::ffff:1.2.3.4]")),
        Some(v6([0, 0, 0, 0, 0, 0xffff, 0x102, 0x304]))
    );
    assert_eq!(requested_address(&host("test.local")), None);
    assert_eq!(requested_address(&host("1.2.3")), None);
    assert_eq!(requested_address(&HeaderMap::new()), None);
    let own = v4(192, 168, 1, 7);
    let source = v4(192, 168, 1, 2);
    let asked = host("192.168.1.7:8767");
    assert_eq!(
        guard(source, &settings(), &asked, "GET", &vec![own]),
        GuardDecision::Allow
    );
    assert_eq!(
        guard(source, &settings(), &asked, "GET", &vec![source]),
        GuardDecision::Reject(421)
    );
    assert_eq!(
        guard_at(source, &settings(), &asked, "GET", None, &vec![own]),
        GuardDecision::Reject(421)
    );
}

#[test]
fn rejects_untrusted_hosts_and_double_encoded_traversal() {
    let source = v4(127, 0, 0, 1);
    assert_eq!(
        decide(source, &host("evil.example"), "GET"),
        GuardDecision::Reject(StatusCode::MISDIRECTED_REQUEST.as_u16())
    );

    assert_eq!(
        decide(source, &host("localhost:8767"), "GET"),
        GuardDecision::Allow
    );
    let error = ApiError::bad_request(FileError {
        kind: FileErrorKind::Invalid,
        code: "files.invalid_argument".to_string(),
        message: "path is invalid".to_string(),
    });
    assert_eq!(error.status, StatusCode::BAD_REQUEST.as_u16());
    assert_eq!(error.code, "files.invalid_argument");
    let mut response = HeaderMap::new();
    security_headers(&mut response);
    assert_eq!(
        response[header::X_CONTENT_TYPE_OPTIONS],
        HeaderValue::from_static("nosniff")
    );

    let mut response = HeaderMap::new();
    asset_headers(&mut response, &asset_key("/"));
    assert!(response[header::CONTENT_TYPE]
        .to_str()
        .unwrap()
        .starts_with("text/html"));
}

#[test]
fn the_guard_decides_in_order() {
    let source = v4(192, 168, 1, 2);
    assert_eq!(
        decide(v4(8, 8, 8, 8), &HeaderMap::new(), "GET"),
        GuardDecision::Reject(403)
    );
    assert_eq!(
        decide(source, &HeaderMap::new(), "GET"),
        GuardDecision::Reject(400)
    );
    assert_eq!(
        decide(source, &host("[::1"), "GET"),
        GuardDecision::Reject(400)
    );
    let mut crossing = host("localhost:8767");
    crossing.insert(header::ORIGIN, HeaderValue::from_static("http://evil.example"));
    assert_eq!(decide(source, &crossing, "GET"), GuardDecision::Allow);
    assert_eq!(decide(source, &crossing, "HEAD"), GuardDecision::Allow);
    assert_eq!(
        decide(source, &crossing, "POST"),
        GuardDecision::Reject(403)
    );
    for origin in ["http://localhost:8767", "https://localhost:8767"] {
        crossing.insert(header::ORIGIN, HeaderValue::from_str(origin).unwrap());
        assert_eq!(decide(source, &crossing, "POST"), GuardDecision::Allow);
    }
    assert_eq!(
        decide(source, &host("localhost:8767"), "POST"),
        GuardDecision::Allow
    );
}
