use arcrelay_web_gateway::addr::{IpAddr, Ipv4Addr, Ipv6Addr};
use arcrelay_web_gateway::network_guard::allowed_host;
use arcrelay_web_gateway::settings::normalize_hostnames;
use arcrelay_web_gateway::supervisor::{gateway_addresses, lan_addresses, url_at};
use arcrelay_web_gateway::{
    WebGatewayBindMode, WebGatewayError, WebGatewaySettings, WebGatewayStatus,
    WebGatewaySupervisor, DEFAULT_WEB_GATEWAY_PORT,
};

fn v4(a: u8, b: u8, c: u8, d: u8) -> IpAddr {
    IpAddr::V4(Ipv4Addr::new(a, b, c, d))
}

fn v6(bits: u128) -> IpAddr {
    IpAddr::V6(Ipv6Addr { bits })
}

fn reason(settings: &WebGatewaySettings) -> Option<String> {
    match settings.validate() {
        Ok(()) => None,
        Err(WebGatewayError::InvalidSettings(reason)) => Some(reason),
        Err(WebGatewayError::Bind { .. }) => unreachable!(),
    }
}

#[test]
fn configured_port_conflicts_are_reported_without_scanning() {
    let port = 41320;
    let mut supervisor = WebGatewaySupervisor::new("test");
    let settings = supervisor
        .reconfigure(WebGatewaySettings {
            enabled: true,
            port,
            site_name: "Test".to_string(),
            ..WebGatewaySettings::default()
        })
        .unwrap();
    assert_eq!(supervisor.server_stopped(&settings), None);
    let error = supervisor.bind_failed(&settings, "Address already in use");
    assert!(error.message().contains(&port.to_string()));
    assert_eq!(error.code(), "web_gateway.address_unavailable");
    assert_eq!(
        error.message(),
        "failed to bind web gateway to 0.0.0.0:41320: Address already in use"
    );
    let status = supervisor.status();
    assert!(!status.running);
    assert_eq!(status.port, port);
    assert!(status.last_error.is_some());
    assert_eq!(
        status.last_error.as_deref(),
        Some(
            "failed to start web access: TCP port 41320 is unavailable (Address already in use)"
        )
    );
    assert!(!supervisor.requires_background());
}

#[test]
fn settings_start_from_their_defaults() {
    let settings = WebGatewaySettings::default();
    assert!(!settings.enabled);
    assert_eq!(settings.port, DEFAULT_WEB_GATEWAY_PORT);
    assert_eq!(settings.port, 8767);
    assert_eq!(settings.bind_mode, WebGatewayBindMode::LanOnly);
    assert_eq!(settings.site_name, "");
    assert_eq!(settings.session_idle_minutes, 720);
    assert!(!settings.allow_vpn_private);
    assert!(settings.allowed_hostnames.is_empty());
    assert_eq!(settings.validate(), Ok(()));
    let status = WebGatewayStatus::default();
    assert!(!status.enabled && !status.running);
    assert_eq!(status.port, 8767);
    assert_eq!(status.last_error, None);
}

#[test]
fn settings_are_checked() {
    let valid = WebGatewaySettings::default;
    let port = WebGatewaySettings { port: 0, ..valid() };
    assert_eq!(
        reason(&port).as_deref(),
        Some("web access port must be between 1 and 65535")
    );
    for (minutes, accepted) in [(4, false), (5, true), (1440, true), (1441, false)] {
        let idle = WebGatewaySettings {
            session_idle_minutes: minutes,
            ..valid()
        };
        assert_eq!(idle.validate().is_ok(), accepted);
        if !accepted {
            assert_eq!(
                reason(&idle).as_deref(),
                Some("web session idle timeout must be between 5 minutes and 24 hours")
            );
        }
    }
    for (name, accepted) in [
        ("a".repeat(128), true),
        ("a".repeat(129), false),
        ("é".repeat(64), true),
        ("é".repeat(65), false),
        ("a\tb".to_string(), false),
        ("a\u{85}b".to_string(), false),
        ("a b".to_string(), true),
    ] {
        let named = WebGatewaySettings {
            site_name: name,
            ..valid()
        };
        assert_eq!(named.validate().is_ok(), accepted);
        if !accepted {
            assert_eq!(
                reason(&named).as_deref(),
                Some("web site name is invalid or exceeds 128 bytes")
            );
        }
    }
    let error = port.validate().unwrap_err();
    assert_eq!(error.code(), "web_gateway.invalid_settings");
    assert_eq!(
        error.message(),
        "invalid web gateway settings: web access port must be between 1 and 65535"
    );
}

#[test]
fn hostnames_are_brought_to_their_normal_form() {
    let mut names: Vec<String> = ["  Host.LOCAL. ", "b", "host.local", "...", "", "a.", "é"]
        .iter()
        .map(|name| name.to_string())
        .collect();
    normalize_hostnames(&mut names);
    assert_eq!(names, ["a", "b", "host.local", "é"]);
}

#[test]
fn addresses_are_written_as_octets() {
    let mut text = String::from("at ");
    Ipv4Addr::new(192, 0, 255, 7).push_text(&mut text);
    assert_eq!(text, "at 192.0.255.7");
    assert_eq!(url_at(v4(10, 0, 0, 1), 80), "http://10.0.0.1:80");
    assert_eq!(
        url_at(v6(0xfd12_0000_0000_00ab_0000_0000_0000_0001), 8767),
        "http://[fd12:0:0:ab::1]:8767"
    );
}

#[test]
fn addresses_of_the_local_network_are_offered() {
    let local = vec![
        v4(192, 168, 1, 7),
        v4(127, 0, 0, 1),
        v4(8, 8, 8, 8),
        v4(100, 64, 0, 1),
        v4(10, 0, 0, 2),
        v4(192, 168, 1, 7),
        v6(1),
        v6(0xfe80 << 112 | 1),
        v6(0xfd00 << 112 | 1),
    ];
    assert_eq!(
        lan_addresses(80, false, &local),
        ["http://10.0.0.2:80", "http://192.168.1.7:80"]
    );
    assert_eq!(
        lan_addresses(80, true, &local),
        [
            "http://10.0.0.2:80",
            "http://192.168.1.7:80",
            "http://[fd00::1]:80"
        ]
    );
    let settings = WebGatewaySettings {
        port: 81,
        allowed_hostnames: vec![
            "box.local".to_string(),
            "box.example".to_string(),
            "10.local".to_string(),
        ],
        ..WebGatewaySettings::default()
    };
    assert_eq!(
        gateway_addresses(&settings, false, &local),
        [
            "http://10.0.0.2:81",
            "http://10.local:81",
            "http://192.168.1.7:81",
            "http://box.local:81"
        ]
    );
}

#[test]
fn the_gateway_is_started_and_stopped() {
    let mut supervisor = WebGatewaySupervisor::new("1.0");
    assert_eq!(supervisor.app_version, "1.0");
    assert_eq!(supervisor.status(), WebGatewayStatus::default());
    let ip = IpAddr::V4(Ipv4Addr::new(10, 0, 0, 1));
    supervisor
        .sessions
        .create_or_authorize(None, ip, "a", 1, 1000, 0);
    assert_eq!(supervisor.status().session_count, 1);
    let settings = supervisor
        .reconfigure(WebGatewaySettings {
            enabled: true,
            port: 81,
            site_name: "Box".to_string(),
            allowed_hostnames: vec![" Box.Local. ".to_string()],
            ..WebGatewaySettings::default()
        })
        .unwrap();
    assert_eq!(settings.allowed_hostnames, ["box.local"]);
    assert_eq!(supervisor.server_stopped(&settings), None);
    assert_eq!(supervisor.status().session_count, 0);
    let status = supervisor.server_started(&settings, false, &vec![v4(10, 0, 0, 2)]);
    assert!(status.enabled && status.running);
    assert_eq!(status.site_name, "Box");
    assert_eq!(
        status.addresses,
        ["http://10.0.0.2:81", "http://box.local:81"]
    );
    assert!(supervisor.requires_background());
    supervisor
        .sessions
        .create_or_authorize(None, ip, "a", 1, 1000, 0);
    let ended = supervisor.server_ended(Some("broken pipe"));
    assert!(ended.enabled && !ended.running);
    assert_eq!(ended.session_count, 1);
    assert_eq!(ended.last_error.as_deref(), Some("broken pipe"));
    assert_eq!(ended.addresses, status.addresses);
    let off = WebGatewaySettings {
        enabled: false,
        ..settings
    };
    let stopped = supervisor.server_stopped(&off).unwrap();
    assert!(!stopped.enabled && !stopped.running);
    assert!(stopped.addresses.is_empty());
    assert_eq!(stopped.last_error, None);
    assert_eq!(supervisor.status(), stopped);
    let ended = supervisor.server_ended(None);
    assert_eq!(ended.last_error, None);
}

#[test]
fn invalid_settings_change_nothing() {
    let mut supervisor = WebGatewaySupervisor::new("1.0");
    let ip = IpAddr::V4(Ipv4Addr::new(10, 0, 0, 1));
    supervisor
        .sessions
        .create_or_authorize(None, ip, "a", 1, 1000, 0);
    let error = supervisor
        .reconfigure(WebGatewaySettings {
            port: 0,
            ..WebGatewaySettings::default()
        })
        .unwrap_err();
    assert_eq!(error.code(), "web_gateway.invalid_settings");
    assert_eq!(supervisor.status().session_count, 1);
    assert_eq!(supervisor.revoke_sessions(Some("b")), 0);
    assert_eq!(supervisor.revoke_sessions(Some("a")), 1);
    assert_eq!(supervisor.revoke_sessions(None), 1);
    assert_eq!(supervisor.status().session_count, 0);
}

#[test]
fn configured_names_are_served() {
    let supervisor = WebGatewaySupervisor::new("1.0");
    let accepted = supervisor
        .reconfigure(WebGatewaySettings {
            allowed_hostnames: vec![" Box.Local.. ".to_string(), "nas".to_string()],
            ..WebGatewaySettings::default()
        })
        .unwrap();
    for host in ["box.local", "BOX.local.", "nas", "NAS..."] {
        assert!(allowed_host(host, &accepted.allowed_hostnames, &vec![]));
    }
    assert!(!allowed_host("nas2", &accepted.allowed_hostnames, &vec![]));
}
