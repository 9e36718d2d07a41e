use nicocast_v2::config::Config;
use nicocast_v2::health::{STATE_IDLE, STATE_P2P_DISCOVERING};
use nicocast_v2::p2p::WfdError;
use nicocast_v2::p2p_manager::{
    connect_failed, connect_start, device_config, has_p2p_capability, is_unknown_interface,
    judge_p2p_probe, listen_timeout, run_step, wfd_ies, wfd_step, wpa_cli_plan, ConnectFailure,
    ConnectStep, P2pProbe, Phase, WfdAction, WfdEvent,
};

#[test]
fn attempts_run_out() {
    let mut cfg = Config::default();
    cfg.p2p.connect_retries = 3;
    cfg.p2p.connect_retry_secs = 9;
    let mut step = connect_start(&cfg);
    let mut attempts = 0;
    loop {
        match step {
            ConnectStep::Try { attempt } => {
                assert_eq!(attempt, 1);
                attempts += 1;
                step = connect_failed(&cfg, attempt, ConnectFailure::Unreachable);
            }
            ConnectStep::WaitThenTry { secs, attempt } => {
                assert_eq!(secs, 9);
                attempts += 1;
                let failure = ConnectFailure::Lookup("timed out".to_owned());
                step = connect_failed(&cfg, attempt, failure);
            }
            ConnectStep::GiveUp { message } => {
                assert_eq!(message, "GetInterface('wlan0') failed (attempt 3/3)");
                break;
            }
            ConnectStep::CreateInterface => panic!("nothing to create"),
        }
    }
    assert_eq!(attempts, 3);
}

#[test]
fn no_attempts_are_allowed() {
    let mut cfg = Config::default();
    cfg.p2p.connect_retries = 0;
    match connect_start(&cfg) {
        ConnectStep::GiveUp { message } => {
            assert_eq!(message, "wpa_supplicant did not respond after 0 attempts")
        }
        _ => panic!("an attempt"),
    }
}

#[test]
fn an_unreachable_service_is_reported() {
    let cfg = Config::default();
    match connect_failed(&cfg, 5, ConnectFailure::Unreachable) {
        ConnectStep::GiveUp { message } => {
            assert_eq!(message, "creating WpaSupplicant proxy (fi.w1.wpa_supplicant1)")
        }
        _ => panic!("a further attempt"),
    }
    assert!(matches!(
        connect_failed(&cfg, u32::MAX, ConnectFailure::Unreachable),
        ConnectStep::GiveUp { .. }
    ));
}

#[test]
fn an_unknown_interface_is_created() {
    let cfg = Config::default();
    for error in [
        "fi.w1.wpa_supplicant1.InterfaceUnknown: x",
        "org.freedesktop.DBus.Error.UnknownObject",
        "NoSuchInterface",
    ] {
        assert!(is_unknown_interface(error));
        let failure = ConnectFailure::Lookup(error.to_owned());
        assert!(matches!(connect_failed(&cfg, 1, failure), ConnectStep::CreateInterface));
    }
    assert!(!is_unknown_interface("unknownobject"));
    assert!(!is_unknown_interface(""));
}

#[test]
fn capabilities() {
    let keys = |list: &[&str]| list.iter().map(|s| s.to_string()).collect::<Vec<String>>();
    assert!(has_p2p_capability(&keys(&["Modes", "P2P"])));
    assert!(has_p2p_capability(&keys(&["p2p"])));
    assert!(!has_p2p_capability(&keys(&["Modes", "P2p"])));
    assert!(!has_p2p_capability(&keys(&[])));
}

#[test]
fn probe_outcomes() {
    assert!(matches!(judge_p2p_probe(None), P2pProbe::Accessible));
    assert!(matches!(
        judge_p2p_probe(Some("org.freedesktop.DBus.Error.UnknownInterface: x")),
        P2pProbe::NotExposed
    ));
    assert!(matches!(judge_p2p_probe(Some("NoSuchInterface")), P2pProbe::NotExposed));
    assert!(matches!(judge_p2p_probe(Some("timeout")), P2pProbe::Unexpected));
}

#[test]
fn information_elements_and_fallback() {
    let cfg = Config::default();
    let ies = wfd_ies(&cfg).unwrap();
    assert_eq!(ies, vec![0x00, 0x06, 0x00, 0x11, 0x1c, 0x44, 0x00, 0xc8]);
    let plan = wpa_cli_plan(&cfg, &ies).unwrap_or_else(|_| panic!("no plan"));
    assert_eq!(plan.enable, vec!["-i", "wlan0", "set", "wifi_display", "1"]);
    assert_eq!(
        plan.set,
        vec!["-i", "wlan0", "wfd_subelem_set", "0", "00111c4400c8"]
    );
    assert!(matches!(wpa_cli_plan(&cfg, &[]), Err(WfdError::TooShort { len: 0 })));
    assert!(matches!(
        wpa_cli_plan(&cfg, &[1, 9, 2]),
        Err(WfdError::LengthMismatch { declared: 9, available: 1 })
    ));
}

#[test]
fn device_configuration() {
    let mut cfg = Config::default();
    let d = device_config(&cfg).unwrap_or_else(|_| panic!("no configuration"));
    assert_eq!(d.device_name, "NicoCast-Sink");
    assert_eq!(d.primary_device_type, [0, 7, 0, 0x50, 0xF2, 4, 0, 1]);
    assert!(!d.no_group_iface);
    cfg.p2p.wps_dev_type = "7".to_owned();
    assert!(device_config(&cfg).is_err());
}

#[test]
fn listen_timeouts_are_clamped() {
    assert_eq!(listen_timeout(0), 0);
    assert_eq!(listen_timeout(300), 300);
    assert_eq!(listen_timeout(2_147_483_647), i32::MAX);
    assert_eq!(listen_timeout(2_147_483_648), i32::MAX);
    assert_eq!(listen_timeout(u32::MAX), i32::MAX);
}

#[test]
fn the_manager_reaches_discovery_and_stays_there() {
    let cfg = Config::default();
    let mut phase = Phase::BuildProxy;
    let mut state = STATE_IDLE;
    for _ in 0..4 {
        let step = run_step(&cfg, phase, true);
        state = step.p2p_state.unwrap_or(state);
        phase = step.next;
    }
    assert!(phase == Phase::Refresh);
    assert_eq!(state, STATE_P2P_DISCOVERING);
    let step = run_step(&cfg, phase, true);
    assert_eq!(step.wait_secs, Some(300));
    assert_eq!(step.p2p_state, None);
    assert!(step.next == Phase::Refresh);
    let step = run_step(&cfg, phase, false);
    assert_eq!(step.wait_secs, None);
    assert_eq!(step.p2p_state, Some(STATE_IDLE));
    assert!(step.next == Phase::BuildProxy);
}

#[test]
fn a_failed_preparation_starts_over() {
    let cfg = Config::default();
    for phase in [Phase::BuildProxy, Phase::SetDeviceConfig, Phase::StartDiscovery] {
        let step = run_step(&cfg, phase, false);
        assert_eq!(step.wait_secs, Some(2));
        assert_eq!(step.p2p_state, None);
        assert!(step.next == Phase::BuildProxy);
    }
    // Missing WFD information elements are no reason to start over.
    let step = run_step(&cfg, Phase::SetWfdIes, false);
    assert_eq!(step.wait_secs, None);
    assert!(step.next == Phase::SetDeviceConfig);
}

#[test]
fn information_elements_are_set_by_dbus_first() {
    let mut cfg = Config::default();
    match wfd_step(&cfg, WfdEvent::Start) {
        WfdAction::SetByDbus { ies } => {
            assert_eq!(ies, vec![0x00, 0x06, 0x00, 0x11, 0x1c, 0x44, 0x00, 0xc8])
        }
        _ => panic!("D-Bus comes first"),
    }
    assert!(matches!(wfd_step(&cfg, WfdEvent::DbusFailed), WfdAction::SetByWpaCli));
    for event in [WfdEvent::SetOnDbus, WfdEvent::SetWithWpaCli, WfdEvent::WpaCliFailed] {
        assert!(matches!(wfd_step(&cfg, event), WfdAction::Done));
    }
    cfg.p2p.wfd_subelems = "xyz".to_owned();
    assert!(matches!(wfd_step(&cfg, WfdEvent::Start), WfdAction::Done));
}
