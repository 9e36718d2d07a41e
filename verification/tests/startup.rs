use nicocast_v2::config::Config;
use nicocast_v2::startup::{
    check_requested, config_paths, exit_code, exit_reason, fallback_runtime_dir,
    judge_runtime_dir, preflight, select_config, Facts, Outcome, RuntimeDir, Shutdown, Task,
};

/// A machine on which everything is in order.
fn good() -> Facts {
    Facts {
        wifi_interface_found: true,
        hardware_plugin: true,
        hardware_decoder: true,
        software_decoder: false,
        rtsp_bind_error: None,
        wpa_socket_found: true,
        health_bind_error: None,
    }
}

#[test]
fn check_flag() {
    let args = |list: &[&str]| list.iter().map(|s| s.to_string()).collect::<Vec<String>>();
    assert!(check_requested(&args(&["nicocast", "--check"])));
    assert!(check_requested(&args(&["nicocast", "-v", "--check", "x"])));
    assert!(!check_requested(&args(&["nicocast", "--checks", "check"])));
    assert!(!check_requested(&args(&[])));
}

#[test]
fn configuration_search_order() {
    assert_eq!(config_paths(), ["/etc/nicocast/config.toml", "config.toml"]);
    let named = |name: &str| {
        let mut cfg = Config::default();
        cfg.device_name = name.to_owned();
        Some(cfg)
    };
    assert_eq!(select_config(&vec![named("a"), named("b")]).device_name, "a");
    assert_eq!(select_config(&vec![None, named("b")]).device_name, "b");
    assert_eq!(select_config(&vec![None, None]).device_name, "NicoCast-Sink");
    assert_eq!(select_config(&Vec::new()).rtsp_port, 7236);
}

#[test]
fn report_of_a_good_machine() {
    let report = preflight(&Config::default(), &good());
    assert!(report.ok);
    assert_eq!(exit_code(report.ok), 0);
    assert_eq!(
        report.lines,
        vec![
            "[OK]   Config validation passed",
            "[OK]   WiFi interface 'wlan0' found",
            "[OK]   GStreamer hardware H.264 decoder (v4l2h264dec) available",
            "[OK]   RTSP port 7236 is available",
            "[OK]   wpa_supplicant socket directory found",
            "[OK]   Health port 8080 is available",
            "[PASS] All critical checks passed — nicocast is ready to start.",
        ]
    );
}

#[test]
fn warnings_are_not_fatal() {
    let mut facts = good();
    facts.hardware_plugin = false;
    facts.software_decoder = true;
    facts.wpa_socket_found = false;
    facts.health_bind_error = Some("busy".to_owned());
    let report = preflight(&Config::default(), &facts);
    assert!(report.ok);
    assert_eq!(
        report.lines[2],
        "[WARN] v4l2h264dec not found — will use software fallback avdec_h264 \
         (install gstreamer1.0-libav for this)"
    );
    assert_eq!(
        report.lines[4],
        "[WARN] wpa_supplicant socket directory not found at \
         [\"/run/wpa_supplicant\", \"/var/run/wpa_supplicant\"]. \
         Ensure wpa_supplicant is running with D-Bus support."
    );
    assert_eq!(
        report.lines[5],
        "[WARN] Health port 8080 is already in use: busy (set health_port = 0 to disable)"
    );
    assert!(report.lines.iter().all(|l| !l.starts_with("[FAIL]")));
}

#[test]
fn each_critical_check_is_fatal() {
    let cfg = Config::default();
    let mut facts = good();
    facts.wifi_interface_found = false;
    let report = preflight(&cfg, &facts);
    assert!(!report.ok);
    assert_eq!(exit_code(report.ok), 1);
    assert_eq!(
        report.lines[1],
        "[FAIL] WiFi interface 'wlan0' not found at /sys/class/net/wlan0"
    );

    let mut facts = good();
    facts.hardware_decoder = false;
    let report = preflight(&cfg, &facts);
    assert!(!report.ok);
    assert_eq!(
        report.lines[2],
        "[FAIL] Neither v4l2h264dec nor avdec_h264 is available. \
         Install gstreamer1.0-plugins-good (hardware) or gstreamer1.0-libav (software)."
    );

    let mut facts = good();
    facts.rtsp_bind_error = Some("Address in use".to_owned());
    let report = preflight(&cfg, &facts);
    assert!(!report.ok);
    assert_eq!(
        report.lines[3],
        "[FAIL] RTSP port 7236 is already in use: Address in use"
    );

    let mut cfg = Config::default();
    cfg.rtp_port = 7236;
    let report = preflight(&cfg, &good());
    assert!(!report.ok);
    assert_eq!(
        report.lines[0],
        "[FAIL] Config validation failed: \
         rtsp_port (7236) and rtp_port (7236) must not be the same"
    );
    assert_eq!(
        report.lines.last().unwrap(),
        "[FAIL] One or more critical checks failed — fix the issues above."
    );
}

#[test]
fn a_disabled_health_port_is_not_checked() {
    let mut cfg = Config::default();
    cfg.health_port = 0;
    let mut facts = good();
    facts.health_bind_error = Some("busy".to_owned());
    let report = preflight(&cfg, &facts);
    assert!(report.ok);
    assert_eq!(report.lines.len(), 6);
}

#[test]
fn runtime_directory() {
    assert_eq!(fallback_runtime_dir(), "/tmp/nicocast-runtime");
    assert!(judge_runtime_dir(None, false) == RuntimeDir::Unset);
    assert!(judge_runtime_dir(Some(""), true) == RuntimeDir::Unset);
    assert!(judge_runtime_dir(Some("/run/user/0"), true) == RuntimeDir::Keep);
    assert!(judge_runtime_dir(Some("/nowhere"), false) == RuntimeDir::Invalid);
}

#[test]
fn shutdown_reasons() {
    let reason = |s: Shutdown| exit_reason(&s);
    assert_eq!(
        reason(Shutdown::TaskEnded(Task::Video, Outcome::Finished)),
        "video pipeline task exited normally"
    );
    assert_eq!(
        reason(Shutdown::TaskEnded(Task::Rtsp, Outcome::Panicked)),
        "RTSP server task panicked"
    );
    assert_eq!(
        reason(Shutdown::TaskEnded(Task::P2p, Outcome::Cancelled)),
        "P2P manager task was cancelled"
    );
    assert_eq!(
        reason(Shutdown::TaskEnded(Task::AirPlay, Outcome::Finished)),
        "AirPlay task exited normally"
    );
    assert_eq!(
        reason(Shutdown::TaskEnded(Task::Health, Outcome::Finished)),
        "health endpoint task exited normally"
    );
    assert_eq!(reason(Shutdown::Interrupt), "received Ctrl-C signal");
    assert_eq!(reason(Shutdown::Terminate), "received SIGTERM signal");
}
