use weldwm::arguments::{
    channels_agree, decodable_codecs, media_supported, parse_bitrate_target, parse_extent,
    parse_peer_timeout, parse_refresh, resolve_legacy_repeat, validate_encoded_capabilities,
    AppArguments, ArgumentConflict, Backend, BackendKind, Extent, ExtentError, HoistCodec,
    HoistSurfaceMode, HoistTransport, HostSelection, InvalidVariant, IrohNetworkKind,
    KeyboardRepeatModeArgument, LegacyKeyRepeatArgument, LocalSurfaceMode, MediaCapabilities,
    MediaError, MediaOperation, NeededOption, NumberError, RelationError,
};
use weldwm::bitrate_budget::{
    asks_environment, resolve, BitrateError, BitrateTarget, EnvironmentTarget, TargetOrigin,
};

fn defaults() -> AppArguments {
    AppArguments {
        legacy_key_repeat: None,
        keyboard_repeat_mode: None,
        backend: BackendKind::default(),
        headless_output: None,
        headless_window_size: None,
        headless_refresh: None,
        remote_debug: None,
        screenshot: None,
        wayland_socket: None,
        hoist_listen: None,
        hoist_connect: None,
        hoist_iroh_listen: None,
        hoist_all: false,
        hoist_iroh_connect: None,
        hoist_iroh_expect_peer: None,
        hoist_iroh_publish_identity: None,
        hoist_iroh_device_dir: None,
        hoist_iroh_publish_profile: None,
        hoist_iroh_timeout: None,
        hoist_iroh_network: None,
        hoist_surface_mode: None,
        hoist_codec: None,
        hoist_bitrate_target_mbps: None,
        hoist_encoded_dump_dir: None,
    }
}

fn arguments(values: &[&str]) -> AppArguments {
    read_options(values).expect("valid values")
}

fn try_parse(values: &[&str]) -> Option<AppArguments> {
    read_options(values).filter(|parsed| parsed.check_relations().is_ok())
}

fn read_options(values: &[&str]) -> Option<AppArguments> {
    let mut parsed = defaults();
    let mut rest = values.iter();
    while let Some(flag) = rest.next() {
        match *flag {
            "--hoist-all" => {
                parsed.hoist_all = true;
                continue;
            }
            "--remote-debug" => {
                parsed.remote_debug = Some("127.0.0.1:15702".to_owned());
                continue;
            }
            _ => {}
        }
        let value = *rest.next().expect("every other option takes a value");
        let text = Some(value.to_owned());
        match *flag {
            "--backend" => {
                parsed.backend = match value {
                    "nested" => BackendKind::Nested,
                    "drm" => BackendKind::Drm,
                    "headless" => BackendKind::Headless,
                    _ => BackendKind::Auto,
                }
            }
            "--headless-output" => {
                parsed.headless_output = Some(parse_extent(value).expect("output size"))
            }
            "--headless-window-size" => {
                parsed.headless_window_size = Some(parse_extent(value).expect("window size"))
            }
            "--headless-refresh" => {
                parsed.headless_refresh = Some(parse_refresh(value).expect("refresh rate"))
            }
            "--scale" => {}
            "--screenshot" => parsed.screenshot = text,
            "--keyboard-repeat-mode" => {
                parsed.keyboard_repeat_mode = Some(match value {
                    "client" => KeyboardRepeatModeArgument::Client,
                    _ => KeyboardRepeatModeArgument::Compositor,
                })
            }
            "--legacy-key-repeat" => {
                parsed.legacy_key_repeat =
                    Some(resolve_legacy_repeat(None, Some(value)).expect("repeat mode"))
            }
            "--hoist-listen" => parsed.hoist_listen = text,
            "--hoist-connect" => parsed.hoist_connect = text,
            "--hoist-iroh-listen" => parsed.hoist_iroh_listen = text,
            "--hoist-iroh-connect" => parsed.hoist_iroh_connect = text,
            "--hoist-iroh-expect-peer" => parsed.hoist_iroh_expect_peer = text,
            "--hoist-iroh-publish-identity" => parsed.hoist_iroh_publish_identity = text,
            "--hoist-iroh-device-dir" => parsed.hoist_iroh_device_dir = text,
            "--hoist-iroh-publish-profile" => parsed.hoist_iroh_publish_profile = text,
            "--hoist-iroh-timeout" => match parse_peer_timeout(value) {
                Ok(seconds) => parsed.hoist_iroh_timeout = Some(seconds),
                Err(_) => return None,
            },
            "--hoist-iroh-network" => {
                parsed.hoist_iroh_network = Some(match value {
                    "direct" => IrohNetworkKind::Direct,
                    _ => IrohNetworkKind::N0,
                })
            }
            "--hoist-surface-mode" => {
                parsed.hoist_surface_mode = Some(match value {
                    "native" => HoistSurfaceMode::Native,
                    _ => HoistSurfaceMode::EncodedOpaque,
                })
            }
            "--hoist-codec" => {
                parsed.hoist_codec = Some(match value {
                    "av1" => HoistCodec::Av1,
                    _ => HoistCodec::H264,
                })
            }
            "--hoist-bitrate-target-mbps" => {
                parsed.hoist_bitrate_target_mbps =
                    Some(parse_bitrate_target(value).expect("bitrate"))
            }
            other => panic!("unknown option {other}"),
        }
    }
    Some(parsed)
}

#[test]
fn headless_cli_selects_a_session_without_changing_auto() {
    assert!(matches!(
        BackendKind::Auto.selection(),
        HostSelection::Bevy(Backend::Auto)
    ));
    assert!(matches!(
        BackendKind::Headless.selection(),
        HostSelection::Headless
    ));
    let args = arguments(&[
        "--backend",
        "headless",
        "--headless-output",
        "2560x1440",
        "--headless-window-size",
        "1280x720",
        "--headless-refresh",
        "90",
        "--scale",
        "1.5",
    ]);
    args.validate_session_arguments().expect("headless arguments");
    let options = args.runtime_options();
    assert_eq!(options.output, Extent { width: 2560, height: 1440 });
    assert_eq!(options.window_size, Extent { width: 1280, height: 720 });
    assert_eq!(options.refresh, 90);
}

#[test]
fn headless_iroh_requires_whole_session_consent_and_owns_repeat_by_default() {
    let flags = [
        "--backend",
        "headless",
        "--hoist-iroh-listen",
        "ticket",
        "--hoist-iroh-expect-peer",
        "peer",
        "--hoist-all",
    ];
    let args = arguments(&flags);
    args.validate_session_arguments().expect("explicit session consent");
    assert_eq!(
        args.runtime_options().repeat_mode,
        KeyboardRepeatModeArgument::Compositor
    );
    assert_eq!(
        args.headless_repeat_mode(),
        KeyboardRepeatModeArgument::Compositor
    );
    let explicit = arguments(&[flags.as_slice(), &["--keyboard-repeat-mode", "client"]].concat());
    assert_eq!(
        explicit.headless_repeat_mode(),
        KeyboardRepeatModeArgument::Client
    );
    let mut nested = args;
    nested.backend = BackendKind::Nested;
    assert!(nested.validate_session_arguments().is_err());
}

#[test]
fn encoded_capability_gates_are_role_specific() {
    let mut media = MediaCapabilities {
        encodes_av1: false,
        encodes_h264: true,
        decodes_av1: false,
        decodes_h264: false,
    };
    assert!(media_supported(
        media,
        HoistCodec::H264,
        MediaOperation::Encode
    ));
    assert!(!media_supported(
        media,
        HoistCodec::H264,
        MediaOperation::Decode
    ));
    media.encodes_h264 = false;
    media.decodes_h264 = true;
    assert!(media_supported(
        media,
        HoistCodec::H264,
        MediaOperation::Decode
    ));
    assert!(!media_supported(
        media,
        HoistCodec::H264,
        MediaOperation::Encode
    ));
}

#[test]
fn headless_cli_rejects_unsupported_presenters_and_transports_before_startup() {
    for flags in [
        vec!["--headless-refresh", "90"],
        vec!["--backend", "nested", "--headless-output", "1920x1080"],
        vec!["--backend", "headless", "--screenshot", "unused.png"],
        vec!["--backend", "headless", "--remote-debug"],
        vec!["--backend", "headless", "--hoist-listen", "unused.sock"],
        vec![
            "--backend",
            "headless",
            "--hoist-iroh-listen",
            "ticket",
            "--hoist-iroh-expect-peer",
            "peer",
        ],
    ] {
        assert!(
            arguments(&flags).validate_session_arguments().is_err(),
            "{flags:?}"
        );
    }
    for extent in ["0x1080", "9000x10", "1920x1080x1"] {
        assert!(parse_extent(extent).is_err());
    }
    for refresh in ["0", "241"] {
        assert!(parse_refresh(refresh).is_err());
    }
}

#[test]
fn keyboard_repeat_configuration_is_explicit_and_cli_wins() {
    assert_eq!(
        resolve_legacy_repeat(None, None),
        Ok(LegacyKeyRepeatArgument::Client)
    );
    assert_eq!(
        resolve_legacy_repeat(None, Some("disabled")),
        Ok(LegacyKeyRepeatArgument::Disabled)
    );
    assert!(resolve_legacy_repeat(None, Some("typo")).is_err());
    assert_eq!(
        resolve_legacy_repeat(None, Some("emulated")),
        Ok(LegacyKeyRepeatArgument::Emulated)
    );
    let emulated = arguments(&["--legacy-key-repeat", "emulated"]);
    assert_eq!(
        resolve_legacy_repeat(emulated.legacy_key_repeat, Some("disabled")),
        Ok(LegacyKeyRepeatArgument::Emulated)
    );
    let options = arguments(&[
        "--legacy-key-repeat",
        "client",
        "--keyboard-repeat-mode",
        "client",
    ]);
    assert_eq!(
        resolve_legacy_repeat(options.legacy_key_repeat, Some("disabled")),
        Ok(LegacyKeyRepeatArgument::Client)
    );
    assert!(options.keyboard_repeat_mode.is_some());
}

#[test]
fn encoded_options_accept_both_source_transports_without_starting_a_host() {
    let local = arguments(&[
        "--hoist-listen",
        "/tmp/weld.sock",
        "--hoist-surface-mode",
        "encoded-opaque",
        "--hoist-codec",
        "av1",
    ]);
    let iroh = arguments(&[
        "--hoist-iroh-listen",
        "/tmp/weld.ticket",
        "--hoist-iroh-expect-peer",
        "/tmp/destination.identity",
        "--hoist-codec",
        "av1",
    ]);

    assert!(local.validate_hoist_arguments().is_ok());
    assert!(iroh.validate_hoist_arguments().is_ok());
}

#[test]
fn encoded_options_reject_destinations_and_native_sources() {
    for arguments in [
        arguments(&["--hoist-connect", "/tmp/weld.sock", "--hoist-codec", "av1"]),
        arguments(&[
            "--hoist-iroh-connect",
            "/tmp/weld.ticket",
            "--hoist-iroh-publish-identity",
            "/tmp/destination.identity",
            "--hoist-codec",
            "av1",
        ]),
        arguments(&["--hoist-listen", "/tmp/weld.sock", "--hoist-codec", "av1"]),
    ] {
        assert!(arguments.validate_hoist_arguments().is_err());
    }
}

fn source(codec: &str, extra: &[&str]) -> AppArguments {
    let mut values = vec![
        "--hoist-listen",
        "/tmp/weld.sock",
        "--hoist-surface-mode",
        "encoded-opaque",
        "--hoist-codec",
        codec,
    ];
    values.extend(extra.iter().copied());
    arguments(&values)
}

fn target(bits_per_second: u64, origin: TargetOrigin) -> Option<BitrateTarget> {
    Some(BitrateTarget { bits_per_second, origin })
}

#[test]
fn precedence_and_default_origins_are_resolved_before_gpu_startup() {
    assert_eq!(
        resolve(&source("av1", &[]), EnvironmentTarget::Absent).expect("default"),
        target(8_000_000, TargetOrigin::Default)
    );
    assert_eq!(
        resolve(&source("h264", &[]), EnvironmentTarget::Absent).expect("default"),
        target(16_000_000, TargetOrigin::Default)
    );
    assert!(asks_environment(&source("av1", &[])));
    assert_eq!(
        resolve(&source("av1", &[]), EnvironmentTarget::Text("4")).expect("env"),
        target(4_000_000, TargetOrigin::Environment)
    );
    let flagged = source("av1", &["--hoist-bitrate-target-mbps", "6"]);
    assert!(!asks_environment(&flagged), "flag must bypass environment");
    assert_eq!(
        resolve(&flagged, EnvironmentTarget::Absent).expect("flag"),
        target(6_000_000, TargetOrigin::Flag)
    );
}

#[test]
fn irrelevant_environment_is_not_read_and_invalid_source_options_fail_early() {
    for args in [
        vec![],
        vec!["--hoist-connect", "/tmp/weld.sock"],
        vec!["--hoist-listen", "/tmp/weld.sock"],
    ] {
        let mut arguments = arguments(&args);
        assert!(!asks_environment(&arguments), "irrelevant environment");
        assert!(
            resolve(&arguments, EnvironmentTarget::Absent)
                .expect("ignored")
                .is_none()
        );
        arguments.hoist_bitrate_target_mbps = Some(8);
        assert!(arguments.validate_hoist_arguments().is_err());
    }
    for invalid in ["0", "oops", "18446744073709551615"] {
        assert!(resolve(&source("av1", &[]), EnvironmentTarget::Text(invalid)).is_err());
    }
}

#[test]
fn bitrate_errors_are_told_apart() {
    let encoded = source("av1", &[]);
    assert_eq!(
        resolve(&encoded, EnvironmentTarget::Text("0")),
        Err(BitrateError::NotPositive)
    );
    assert_eq!(
        resolve(&encoded, EnvironmentTarget::Text("oops")),
        Err(BitrateError::InvalidNumber)
    );
    assert_eq!(
        resolve(&encoded, EnvironmentTarget::Text("18446744073709551616")),
        Err(BitrateError::InvalidNumber)
    );
    assert_eq!(
        resolve(&encoded, EnvironmentTarget::Text("18446744073710")),
        Err(BitrateError::Overflow)
    );
    assert_eq!(
        resolve(&encoded, EnvironmentTarget::Text("+18446744073709")),
        Ok(target(18_446_744_073_709_000_000, TargetOrigin::Environment))
    );
    assert_eq!(
        resolve(&encoded, EnvironmentTarget::NotText),
        Err(BitrateError::InvalidEncoding)
    );
    let mut plain = defaults();
    plain.hoist_bitrate_target_mbps = Some(8);
    assert_eq!(
        resolve(&plain, EnvironmentTarget::NotText),
        Err(BitrateError::NoEncodedSource)
    );
    plain.hoist_bitrate_target_mbps = None;
    plain.hoist_iroh_listen = Some("ticket".to_owned());
    assert_eq!(
        resolve(&plain, EnvironmentTarget::Absent),
        Ok(target(16_000_000, TargetOrigin::Default))
    );
}

#[test]
fn sizes_are_read_exactly() {
    assert_eq!(parse_extent("1x8192"), Ok(Extent { width: 1, height: 8192 }));
    assert_eq!(parse_extent("+07x9"), Ok(Extent { width: 7, height: 9 }));
    assert_eq!(parse_extent("1920"), Err(ExtentError::MissingSeparator));
    assert_eq!(parse_extent(""), Err(ExtentError::MissingSeparator));
    assert_eq!(parse_extent("1920X1080"), Err(ExtentError::MissingSeparator));
    assert_eq!(parse_extent("x1080"), Err(ExtentError::InvalidWidth));
    assert_eq!(parse_extent("-1x1080"), Err(ExtentError::InvalidWidth));
    assert_eq!(parse_extent("+x1080"), Err(ExtentError::InvalidWidth));
    assert_eq!(parse_extent("4294967296x1"), Err(ExtentError::InvalidWidth));
    assert_eq!(parse_extent("1920x"), Err(ExtentError::InvalidHeight));
    assert_eq!(parse_extent("1920x1080x1"), Err(ExtentError::InvalidHeight));
    assert_eq!(parse_extent("1920x 1"), Err(ExtentError::InvalidHeight));
    assert_eq!(parse_extent("0x1080"), Err(ExtentError::OutOfRange));
    assert_eq!(parse_extent("1x8193"), Err(ExtentError::OutOfRange));
    assert_eq!(parse_refresh("240"), Ok(240));
    assert_eq!(parse_refresh("241"), Err(NumberError::OutOfRange));
    assert_eq!(parse_refresh("six"), Err(NumberError::NotANumber));
    assert_eq!(parse_peer_timeout("3600"), Ok(3600));
    assert_eq!(parse_peer_timeout("3601"), Err(NumberError::OutOfRange));
    assert_eq!(parse_peer_timeout("0"), Err(NumberError::OutOfRange));
    assert_eq!(parse_bitrate_target("18446744073709"), Ok(u64::MAX / 1_000_000));
    assert_eq!(
        parse_bitrate_target("18446744073710"),
        Err(NumberError::OutOfRange)
    );
}

#[test]
fn conflicts_are_named() {
    let conflict = |flags: &[&str]| arguments(flags).validate_session_arguments();
    assert_eq!(
        conflict(&["--hoist-all"]),
        Err(ArgumentConflict::HoistAllNeedsHeadless)
    );
    assert_eq!(
        conflict(&["--headless-refresh", "60"]),
        Err(ArgumentConflict::HeadlessOptionsNeedHeadless)
    );
    assert_eq!(
        conflict(&["--backend", "headless", "--screenshot", "a.png"]),
        Err(ArgumentConflict::HeadlessHasNoPresenter)
    );
    assert_eq!(
        conflict(&["--backend", "headless", "--hoist-connect", "a"]),
        Err(ArgumentConflict::HeadlessTransport)
    );
    assert_eq!(
        conflict(&["--backend", "headless", "--hoist-all"]),
        Err(ArgumentConflict::HeadlessNeedsConsent)
    );
    assert_eq!(
        conflict(&["--backend", "headless", "--hoist-codec", "av1"]),
        Err(ArgumentConflict::EncodedSourceRequired)
    );
    assert_eq!(conflict(&[]), Ok(()));
    assert_eq!(resolve_legacy_repeat(None, Some("Client")), Err(InvalidVariant));
}

#[test]
fn transports_and_modes_follow_the_options() {
    assert_eq!(defaults().transport(), HoistTransport::Loopback);
    let local = arguments(&["--hoist-listen", "a"]);
    assert_eq!(local.transport(), HoistTransport::LocalSource);
    assert_eq!(local.local_surface_mode(), LocalSurfaceMode::Native);
    assert_eq!(
        source("av1", &[]).local_surface_mode(),
        LocalSurfaceMode::EncodedOpaque(HoistCodec::Av1)
    );
    let destination = arguments(&["--hoist-connect", "a"]);
    assert_eq!(destination.transport(), HoistTransport::LocalDestination);
    assert!(!destination.transport().enables_hoist_policy());
    assert!(local.transport().enables_hoist_policy());
    assert_eq!(
        arguments(&["--hoist-iroh-listen", "a"]).transport(),
        HoistTransport::IrohSource
    );
    let peer = arguments(&["--hoist-iroh-connect", "a"]);
    assert_eq!(peer.transport(), HoistTransport::IrohDestination);
    assert!(!peer.transport().enables_hoist_policy());
    assert_eq!(peer.peer_timeout(), 120);
    let mut slow = peer;
    slow.hoist_iroh_timeout = Some(300);
    assert_eq!(slow.peer_timeout(), 300);
    assert_eq!(HoistCodec::default(), HoistCodec::H264);
    assert_eq!(IrohNetworkKind::default(), IrohNetworkKind::Direct);
    assert_eq!(
        HoistSurfaceMode::EncodedOpaque.local(HoistCodec::H264),
        LocalSurfaceMode::EncodedOpaque(HoistCodec::H264)
    );
    let options = defaults().runtime_options();
    assert_eq!(options.output, Extent { width: 1920, height: 1080 });
    assert_eq!(options.window_size, Extent { width: 960, height: 640 });
    assert_eq!(options.refresh, 60);
    assert_eq!(options.repeat_mode, KeyboardRepeatModeArgument::Client);
    assert_eq!(options.legacy_repeat, LegacyKeyRepeatArgument::Client);
    let both = MediaCapabilities {
        encodes_av1: false,
        encodes_h264: false,
        decodes_av1: true,
        decodes_h264: true,
    };
    assert_eq!(decodable_codecs(both), [HoistCodec::Av1, HoistCodec::H264]);
}

#[test]
fn encoded_media_is_checked_before_it_is_used() {
    let media = MediaCapabilities {
        encodes_av1: true,
        encodes_h264: false,
        decodes_av1: false,
        decodes_h264: true,
    };
    let check = |media, codec, operation| validate_encoded_capabilities(media, codec, operation);
    assert_eq!(
        check(None, HoistCodec::Av1, MediaOperation::Encode),
        Err(MediaError::NoImport)
    );
    assert_eq!(
        check(Some(media), HoistCodec::Av1, MediaOperation::Encode),
        Ok(())
    );
    assert_eq!(
        check(Some(media), HoistCodec::Av1, MediaOperation::Decode),
        Err(MediaError::Unsupported)
    );
    assert_eq!(decodable_codecs(media), [HoistCodec::H264]);
    let encoded = LocalSurfaceMode::EncodedOpaque(HoistCodec::Av1);
    assert!(channels_agree(encoded, true));
    assert!(!channels_agree(encoded, false));
    assert!(channels_agree(LocalSurfaceMode::Native, false));
    assert!(!channels_agree(LocalSurfaceMode::Native, true));
}

#[test]
fn peer_transports_are_mutually_exclusive() {
    assert!(try_parse(&[
        "--hoist-listen",
        "/tmp/weld.sock",
        "--hoist-iroh-connect",
        "/tmp/weld.ticket",
    ])
    .is_none());
}

#[test]
fn iroh_network_requires_an_iroh_peer() {
    assert!(try_parse(&["--hoist-iroh-network", "direct"]).is_none());
}

#[test]
fn persistent_identity_and_profile_require_explicit_iroh_roles() {
    for flag in ["--hoist-iroh-device-dir", "--hoist-iroh-publish-profile"] {
        assert!(try_parse(&[flag, "/tmp/example"]).is_none());
    }
    for backend in ["nested", "headless"] {
        let parsed = try_parse(&[
            "--backend",
            backend,
            "--hoist-iroh-listen",
            "/tmp/ticket",
            "--hoist-iroh-expect-peer",
            "/tmp/approved",
            "--hoist-iroh-device-dir",
            "/tmp/device",
            "--hoist-iroh-publish-profile",
            "/tmp/profile",
            "--hoist-iroh-network",
            "n0",
        ])
        .expect("explicit persistent source");
        assert_eq!(parsed.hoist_iroh_device_dir.as_deref(), Some("/tmp/device"));
        assert_eq!(
            parsed.hoist_iroh_publish_profile.as_deref(),
            Some("/tmp/profile")
        );
    }
}

#[test]
fn iroh_cli_requires_explicit_peer_exchange_and_bounded_timeout() {
    for args in [
        vec!["--hoist-iroh-listen", "/tmp/source"],
        vec!["--hoist-iroh-connect", "/tmp/source"],
        vec!["--hoist-iroh-expect-peer", "/tmp/peer"],
        vec!["--hoist-iroh-publish-identity", "/tmp/peer"],
        vec!["--hoist-iroh-timeout", "120"],
        vec![
            "--hoist-iroh-listen",
            "/tmp/source",
            "--hoist-iroh-expect-peer",
            "/tmp/peer",
            "--hoist-iroh-timeout",
            "0",
        ],
        vec![
            "--hoist-iroh-listen",
            "/tmp/source",
            "--hoist-iroh-expect-peer",
            "/tmp/peer",
            "--hoist-iroh-timeout",
            "3601",
        ],
    ] {
        assert!(try_parse(&args).is_none());
    }
    for network in ["direct", "n0"] {
        let args = try_parse(&[
            "--hoist-iroh-listen",
            "/tmp/source",
            "--hoist-iroh-expect-peer",
            "/tmp/peer",
            "--hoist-iroh-network",
            network,
            "--hoist-iroh-timeout",
            "300",
        ])
        .expect("valid command line");
        assert_eq!(args.hoist_iroh_timeout, Some(300));
    }
}

#[test]
fn broken_relations_are_named() {
    let missing = |needed| Err(RelationError::Missing(needed));
    let check = |values: &[&str]| arguments(values).check_relations();
    assert_eq!(check(&[]), Ok(()));
    assert_eq!(
        check(&["--hoist-listen", "a", "--hoist-connect", "b"]),
        Err(RelationError::SeveralPeers)
    );
    assert_eq!(
        check(&["--hoist-iroh-listen", "a"]),
        missing(NeededOption::IrohExpectPeer)
    );
    assert_eq!(check(&["--hoist-all"]), missing(NeededOption::IrohListen));
    assert_eq!(
        check(&["--hoist-iroh-expect-peer", "a"]),
        missing(NeededOption::IrohListen)
    );
    assert_eq!(
        check(&["--hoist-iroh-connect", "a"]),
        missing(NeededOption::IrohPublishIdentity)
    );
    assert_eq!(
        check(&["--hoist-iroh-publish-identity", "a"]),
        missing(NeededOption::IrohConnect)
    );
    assert_eq!(
        check(&["--hoist-iroh-timeout", "5"]),
        missing(NeededOption::IrohPeer)
    );
    assert_eq!(
        check(&["--hoist-surface-mode", "native"]),
        missing(NeededOption::HoistListen)
    );
    assert_eq!(
        check(&["--hoist-listen", "a", "--hoist-surface-mode", "native"]),
        Ok(())
    );
}
