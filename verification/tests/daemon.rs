use padu::daemon::{
    daemon_launch, hostname_from_buffer, hostname_from_environment, local_daemon_address,
    daemon_start_next, DaemonEnvError, DaemonLaunch, DaemonStartAttempt,
};

#[test]
fn the_environment_names_a_daemon_only_with_both_address_and_token() {
    assert_eq!(
        daemon_launch(Some("  ws://10.0.0.2:7000 "), Some("tok")),
        Ok(DaemonLaunch::Connect {
            address: "ws://10.0.0.2:7000".into(),
            token: "tok".into()
        })
    );
    assert_eq!(daemon_launch(None, None), Ok(DaemonLaunch::Spawn));
    assert_eq!(daemon_launch(Some("   "), None), Ok(DaemonLaunch::Spawn));
    assert_eq!(daemon_launch(None, Some("")), Ok(DaemonLaunch::Spawn));
    assert_eq!(
        daemon_launch(Some("ws://h"), Some("")),
        Err(DaemonEnvError::TokenMissing)
    );
    assert_eq!(
        daemon_launch(Some(" "), Some("tok")),
        Err(DaemonEnvError::AddressMissing)
    );
}

#[test]
fn a_local_exposed_daemon_listens_on_loopback() {
    assert_eq!(local_daemon_address(7447), "ws://127.0.0.1:7447");
    assert_eq!(local_daemon_address(0), "ws://127.0.0.1:0");
}

#[test]
fn host_names_come_from_the_buffer_or_the_environment() {
    let mut buffer = [0u8; 16];
    buffer[..7].copy_from_slice(b" mac-1 ");
    assert_eq!(hostname_from_buffer(&buffer), Some("mac-1".into()));
    assert_eq!(hostname_from_buffer(&[0u8; 8]), None);
    assert_eq!(hostname_from_buffer(b"full"), Some("full".into()));
    assert_eq!(hostname_from_buffer(b"a\xffb\0zz"), Some("a\u{fffd}b".into()));

    assert_eq!(
        hostname_from_environment(&[None, Some("  ".into()), Some(" box ".into())]),
        Some("box".into())
    );
    assert_eq!(hostname_from_environment(&[None, None]), None);
}

#[test]
fn starting_falls_back_to_the_exposed_daemon_then_a_private_one() {
    assert_eq!(
        daemon_start_next(None, true, 7447, "tok", false),
        Some(DaemonStartAttempt::SpawnConfigured)
    );
    assert_eq!(
        daemon_start_next(Some(&DaemonStartAttempt::SpawnConfigured), true, 7447, "tok", false),
        Some(DaemonStartAttempt::ReuseExposed {
            address: "ws://127.0.0.1:7447".into(),
            token: "tok".into()
        })
    );
    assert_eq!(
        daemon_start_next(Some(&DaemonStartAttempt::SpawnConfigured), false, 7447, "tok", true),
        None
    );
    let reuse = DaemonStartAttempt::ReuseExposed { address: "a".into(), token: "t".into() };
    assert_eq!(
        daemon_start_next(Some(&reuse), true, 7447, "tok", true),
        Some(DaemonStartAttempt::SpawnPrivate)
    );
    assert_eq!(daemon_start_next(Some(&reuse), true, 7447, "tok", false), None);
    assert_eq!(
        daemon_start_next(Some(&DaemonStartAttempt::SpawnPrivate), true, 7447, "tok", true),
        None
    );
}
