use padu::settings::{
    abbreviate_home_path, daemon_qr_address, detection_checked_label, host_last_connected_label,
    parse_port, strip_scheme, Elapsed, HostKind, LastConnected, QrAddressError, TunnelStatus,
    apply_daemon_exposure, daemon_exposure_from_fields, daemon_exposure_fields_dirty, DaemonExposure,
    ExposureChange, ExposureFieldsError, host_transport_label, host_transport_status,
    set_daemon_exposure_enabled, add_daemon_origin, remove_daemon_origin,
};

#[test]
fn provider_paths_abbreviate_only_the_home_prefix() {
    let home = "/Users/example";

    assert_eq!(
        abbreviate_home_path("/Users/example/.local/bin/amp", Some(home)),
        "~/.local/bin/amp"
    );
    assert_eq!(
        abbreviate_home_path("/opt/homebrew/bin/codex", Some(home)),
        "/opt/homebrew/bin/codex"
    );
}

#[test]
fn home_itself_and_lookalike_prefixes() {
    assert_eq!(abbreviate_home_path("/Users/example", Some("/Users/example")), "~");
    assert_eq!(
        abbreviate_home_path("/Users/examples/bin", Some("/Users/example")),
        "/Users/examples/bin"
    );
    assert_eq!(abbreviate_home_path("/usr/bin/x", None), "/usr/bin/x");
}

#[test]
fn pasted_urls_lose_their_scheme_and_trailing_slashes() {
    assert_eq!(strip_scheme("  wss://host.example/ "), "host.example");
    assert_eq!(strip_scheme("ws://ws://x"), "ws://x");
    assert_eq!(strip_scheme("http://192.168.1.10:4000//"), "192.168.1.10:4000");
    assert_eq!(strip_scheme("plain"), "plain");
}

#[test]
fn elapsed_labels_step_from_minutes_to_days() {
    assert_eq!(detection_checked_label(30), Elapsed::JustNow);
    assert_eq!(detection_checked_label(120), Elapsed::MinutesAgo(2));
    assert_eq!(detection_checked_label(7200), Elapsed::HoursAgo(2));
    assert_eq!(host_last_connected_label(None, 100), LastConnected::Never);
    assert_eq!(
        host_last_connected_label(Some(0), 3 * 86400 + 5),
        LastConnected::Ago(Elapsed::DaysAgo(3))
    );
    assert_eq!(
        host_last_connected_label(Some(500), 100),
        LastConnected::Ago(Elapsed::JustNow)
    );
}

#[test]
fn ports_parse_like_u16() {
    assert_eq!(parse_port("8080"), Some(8080));
    assert_eq!(parse_port("+22"), Some(22));
    assert_eq!(parse_port("65535"), Some(65535));
    assert_eq!(parse_port("65536"), None);
    assert_eq!(parse_port(""), None);
    assert_eq!(parse_port("+"), None);
    assert_eq!(parse_port("-1"), None);
    assert_eq!(parse_port("12a"), None);
}

#[test]
fn pairing_addresses_follow_the_transport() {
    assert_eq!(
        daemon_qr_address(HostKind::Direct, " ", Some("192.168.1.10"), "mac", 4000, "", TunnelStatus::Missing),
        Ok("ws://192.168.1.10:4000".to_owned())
    );
    assert_eq!(
        daemon_qr_address(HostKind::Direct, "", Some("  "), "mac.local", 4000, "", TunnelStatus::Missing),
        Ok("ws://mac.local:4000".to_owned())
    );
    assert_eq!(
        daemon_qr_address(HostKind::Direct, "ws://10.0.0.2:9000/", None, "", 4000, "", TunnelStatus::Missing),
        Ok("ws://10.0.0.2:9000".to_owned())
    );
    assert_eq!(
        daemon_qr_address(HostKind::Direct, "", None, "", 4000, "", TunnelStatus::Missing),
        Err(QrAddressError::NeedDirectHost)
    );
    assert_eq!(
        daemon_qr_address(HostKind::Tailscale, "box.tail", None, "", 4000, "", TunnelStatus::Missing),
        Ok("wss://box.tail:4000".to_owned())
    );
    assert_eq!(
        daemon_qr_address(HostKind::SshRelay, "relay.example", None, "", 4000, " 2222 ", TunnelStatus::Missing),
        Ok("wss://relay.example:2222".to_owned())
    );
    assert_eq!(
        daemon_qr_address(HostKind::SshRelay, "relay.example", None, "", 4000, "0", TunnelStatus::Missing),
        Err(QrAddressError::NeedPort)
    );
    assert_eq!(
        daemon_qr_address(HostKind::Cloudflare, "", None, "", 4000, "", TunnelStatus::Ready("wss://t.example".into())),
        Ok("wss://t.example".to_owned())
    );
    assert_eq!(
        daemon_qr_address(HostKind::Cloudflare, "", None, "", 4000, "", TunnelStatus::Failed("boom".into())),
        Err(QrAddressError::TunnelFailed("boom".into()))
    );
}

fn exposure(enabled: bool, port: u16, origins: &[&str]) -> DaemonExposure {
    DaemonExposure {
        enabled,
        port,
        allowed_origins: origins.iter().map(|o| o.to_string()).collect(),
        token: "pairing-token".into(),
    }
}

#[test]
fn exposure_fields_read_the_port_and_nonblank_origins() {
    let origins = vec![
        " https://a.example ".to_string(),
        "   ".to_string(),
        "https://b.example".to_string(),
    ];
    assert_eq!(
        daemon_exposure_from_fields(" 8080 ", &origins),
        Ok((
            8080,
            vec!["https://a.example".to_string(), "https://b.example".to_string()]
        ))
    );
    assert_eq!(
        daemon_exposure_from_fields("0", &origins),
        Err(ExposureFieldsError::InvalidPort)
    );
    assert_eq!(
        daemon_exposure_from_fields("70000", &[]),
        Err(ExposureFieldsError::InvalidPort)
    );
    assert_eq!(
        daemon_exposure_from_fields("http", &[]),
        Err(ExposureFieldsError::InvalidPort)
    );
}

#[test]
fn exposure_fields_are_dirty_when_unreadable_or_different() {
    let current = exposure(true, 8080, &["https://a.example"]);
    let same = daemon_exposure_from_fields("8080", &["https://a.example".to_string()]);
    assert!(!daemon_exposure_fields_dirty(&same, &current));
    let other_port = daemon_exposure_from_fields("8081", &["https://a.example".to_string()]);
    assert!(daemon_exposure_fields_dirty(&other_port, &current));
    let fewer = daemon_exposure_from_fields("8080", &[]);
    assert!(daemon_exposure_fields_dirty(&fewer, &current));
    assert!(daemon_exposure_fields_dirty(
        &Err(ExposureFieldsError::InvalidPort),
        &current
    ));
}

#[test]
fn applying_exposure_restarts_only_when_it_is_or_was_on() {
    let off = exposure(false, 8080, &[]);
    let off_other_port = exposure(false, 9090, &[]);
    let on = exposure(true, 8080, &[]);
    assert_eq!(
        apply_daemon_exposure(false, &off, &off, false, false),
        ExposureChange::Unchanged
    );
    assert_eq!(
        apply_daemon_exposure(true, &off, &on, false, false),
        ExposureChange::Unchanged
    );
    assert_eq!(
        apply_daemon_exposure(false, &off, &on, true, false),
        ExposureChange::RemoteDaemon
    );
    assert_eq!(
        apply_daemon_exposure(false, &off, &on, false, true),
        ExposureChange::StopActiveTasks
    );
    assert_eq!(
        apply_daemon_exposure(false, &off, &on, false, false),
        ExposureChange::Restart
    );
    assert_eq!(
        apply_daemon_exposure(false, &on, &off, false, false),
        ExposureChange::Restart
    );
    assert_eq!(
        apply_daemon_exposure(false, &off, &off_other_port, false, false),
        ExposureChange::Save
    );
}

#[test]
fn transports_are_named_and_their_tunnels_summarised() {
    assert_eq!(host_transport_label(HostKind::Direct), "Direct");
    assert_eq!(host_transport_label(HostKind::Tailscale), "Tailscale");
    assert_eq!(host_transport_label(HostKind::Cloudflare), "Cloudflare Tunnel");
    assert_eq!(host_transport_label(HostKind::SshRelay), "SSH relay");
    assert_eq!(
        host_transport_status(&TunnelStatus::Ready("https://x.example".into())),
        Some(("Connected".to_string(), true))
    );
    assert_eq!(
        host_transport_status(&TunnelStatus::Starting),
        Some(("Starting".to_string(), true))
    );
    assert_eq!(
        host_transport_status(&TunnelStatus::Failed("no route".into())),
        Some(("Failed".to_string(), false))
    );
    assert_eq!(host_transport_status(&TunnelStatus::Busy), None);
    assert_eq!(host_transport_status(&TunnelStatus::Stopped), None);
}

#[test]
fn switching_exposure_on_reads_the_form_and_off_keeps_the_settings() {
    let current = exposure(true, 8080, &["https://a.example"]);
    let off = set_daemon_exposure_enabled(false, &Err(ExposureFieldsError::InvalidPort), &current)
        .unwrap();
    assert!(!off.enabled);
    assert_eq!(off.port, 8080);
    assert_eq!(off.allowed_origins, vec!["https://a.example".to_string()]);
    assert_eq!(off.token, "pairing-token");

    let fields = daemon_exposure_from_fields("9090", &["https://b.example".to_string()]);
    let on = set_daemon_exposure_enabled(true, &fields, &exposure(false, 8080, &[])).unwrap();
    assert!(on.enabled);
    assert_eq!(on.port, 9090);
    assert_eq!(on.allowed_origins, vec!["https://b.example".to_string()]);
    assert_eq!(on.token, "pairing-token");
    assert!(matches!(
        set_daemon_exposure_enabled(true, &Err(ExposureFieldsError::InvalidPort), &current),
        Err(ExposureFieldsError::InvalidPort)
    ));
}

#[test]
fn origin_fields_are_added_empty_and_removed_by_index() {
    let mut origins = vec!["https://a.example".to_string()];
    add_daemon_origin(&mut origins);
    assert_eq!(origins, vec!["https://a.example".to_string(), String::new()]);
    assert!(remove_daemon_origin(&mut origins, 0));
    assert_eq!(origins, vec![String::new()]);
    assert!(!remove_daemon_origin(&mut origins, 3));
    assert_eq!(origins.len(), 1);
}
