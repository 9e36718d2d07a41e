use nicocast_v2::config::{
    default_airplay_name, default_p2p_connect_retries, default_wfd_subelems, validate_hex_field,
    Config, ConfigError, ConfigValues, P2pConfig, P2pValues,
};

/// Values of a file that gives nothing.
fn nothing() -> ConfigValues {
    ConfigValues {
        device_name: None,
        wifi_interface: None,
        usb_interface: None,
        rtsp_port: None,
        rtp_port: None,
        log_file: None,
        health_port: None,
        rtsp_keepalive_secs: None,
        rtsp_send_m2: None,
        airplay_enabled: None,
        airplay_name: None,
        p2p: None,
    }
}

/// Values of a `[p2p]` table that gives nothing.
fn no_p2p_values() -> P2pValues {
    P2pValues {
        wps_dev_type: None,
        no_group_iface: None,
        wfd_subelems: None,
        listen_secs: None,
        connect_retries: None,
        connect_retry_secs: None,
    }
}

/// The values that a TOML document gives at its top level.
fn values_of(document: &str) -> ConfigValues {
    let table: toml::Table = toml::from_str(document).expect("parse failed");
    let text = |key: &str| table.get(key).and_then(|v| v.as_str()).map(|s| s.to_owned());
    let port = |key: &str| {
        table
            .get(key)
            .and_then(|v| v.as_integer())
            .map(|n| u16::try_from(n).expect("a port"))
    };
    ConfigValues {
        device_name: text("device_name"),
        wifi_interface: text("wifi_interface"),
        usb_interface: text("usb_interface"),
        rtsp_port: port("rtsp_port"),
        rtp_port: port("rtp_port"),
        log_file: text("log_file"),
        health_port: port("health_port"),
        airplay_name: text("airplay_name"),
        ..nothing()
    }
}

/// The message of the error that validation gives.
fn complaint(cfg: &Config) -> String {
    cfg.validate().expect_err("expected an error").message()
}

#[test]
fn defaults_are_sane() {
    let cfg = Config::default();
    assert_eq!(cfg.rtsp_port, 7236);
    assert_eq!(cfg.rtp_port, 16384);
    assert_eq!(cfg.p2p.wps_dev_type, "7-0050F204-1");
    assert_eq!(cfg.p2p.wfd_subelems, "000600111c4400c8");
    assert!(!cfg.p2p.no_group_iface);
    assert_eq!(cfg.health_port, 8080);
    assert_eq!(cfg.rtsp_keepalive_secs, 60);
    assert!(!cfg.rtsp_send_m2);
    assert!(!cfg.airplay_enabled);
    assert_eq!(cfg.p2p.connect_retries, 5);
    assert_eq!(cfg.p2p.connect_retry_secs, 2);
}

#[test]
fn load_from_toml_string() {
    let toml = r#"
            device_name = "TestSink"
            wifi_interface = "wlan1"
            rtsp_port = 7236
            rtp_port = 16384
        "#;
    let cfg: Config = Config::load_values(values_of(toml)).expect("parse failed");
    assert_eq!(cfg.device_name, "TestSink");
    assert_eq!(cfg.wifi_interface, "wlan1");
    // Unspecified fields must fall back to defaults
    assert_eq!(cfg.p2p.wps_dev_type, "7-0050F204-1");
}

#[test]
fn validate_accepts_valid_hex() {
    let cfg = Config::default();
    assert!(cfg.validate().is_ok());
}

#[test]
fn validate_rejects_odd_length_hex() {
    let mut cfg = Config::default();
    cfg.p2p.wfd_subelems = "000600111c4400c".to_owned(); // odd length
    assert!(cfg.validate().is_err());
}

#[test]
fn validate_rejects_invalid_hex_chars() {
    let mut cfg = Config::default();
    cfg.p2p.wfd_subelems = "000GXX11".to_owned(); // invalid chars
    assert!(cfg.validate().is_err());
}

#[test]
fn validate_rejects_empty_wfd_subelems() {
    let mut cfg = Config::default();
    cfg.p2p.wfd_subelems = String::new();
    assert!(cfg.validate().is_err());
}

#[test]
fn validate_rejects_rtsp_rtp_port_collision() {
    let mut cfg = Config::default();
    cfg.rtp_port = cfg.rtsp_port;
    assert!(cfg.validate().is_err());
}

#[test]
fn validate_rejects_health_rtsp_port_collision() {
    let mut cfg = Config::default();
    cfg.health_port = cfg.rtsp_port;
    assert!(cfg.validate().is_err());
}

#[test]
fn validate_rejects_health_rtp_port_collision() {
    let mut cfg = Config::default();
    cfg.health_port = cfg.rtp_port;
    assert!(cfg.validate().is_err());
}

#[test]
fn validate_allows_health_port_zero() {
    let mut cfg = Config::default();
    // health_port = 0 disables health endpoint; port "collision" checks
    // must not fire for the disabled port.
    cfg.health_port = 0;
    assert!(cfg.validate().is_ok());
}

#[test]
fn remaining_defaults() {
    let cfg = Config::default();
    assert_eq!(cfg.device_name, "NicoCast-Sink");
    assert_eq!(cfg.wifi_interface, "wlan0");
    assert_eq!(cfg.usb_interface, "usb0");
    assert_eq!(cfg.log_file, "/var/log/miracast_rs.log");
    assert_eq!(cfg.airplay_name, "NicoCast-Sink-AirPlay");
    assert_eq!(cfg.p2p.listen_secs, 300);
    assert_eq!(P2pConfig::default().listen_secs, 300);
    assert_eq!(default_wfd_subelems(), "000600111c4400c8");
    assert_eq!(default_p2p_connect_retries(), 5);
    assert_eq!(default_airplay_name("Kitchen"), "Kitchen-AirPlay");
}

#[test]
fn nothing_given_is_the_default() {
    let cfg = Config::load_values(nothing()).unwrap();
    assert_eq!(format!("{cfg:?}"), format!("{:?}", Config::default()));
    assert_eq!(format!("{:?}", cfg.clone()), format!("{cfg:?}"));
}

#[test]
fn given_values_are_taken() {
    let given = ConfigValues {
        device_name: Some("Den".to_owned()),
        health_port: Some(0),
        rtsp_send_m2: Some(true),
        airplay_enabled: Some(true),
        rtsp_keepalive_secs: Some(7),
        p2p: Some(P2pValues {
            wfd_subelems: Some("0102ABCD".to_owned()),
            connect_retries: Some(0),
            ..no_p2p_values()
        }),
        ..nothing()
    };
    let cfg = Config::load_values(given).unwrap();
    assert_eq!(cfg.device_name, "Den");
    assert_eq!(cfg.airplay_name, "Den-AirPlay");
    assert_eq!(cfg.health_port, 0);
    assert!(cfg.rtsp_send_m2);
    assert_eq!(cfg.rtsp_keepalive_secs, 7);
    assert_eq!(cfg.p2p.wfd_subelems, "0102ABCD");
    assert_eq!(cfg.p2p.connect_retries, 0);
    assert_eq!(cfg.p2p.connect_retry_secs, 2);
    assert_eq!(
        cfg.airplay_warning().unwrap(),
        "airplay_enabled = true: AirPlay (uxplay) and Miracast (P2P) both require exclusive \
         control of WiFi interface 'wlan0'. Running both simultaneously will cause \
         connectivity failures. Disable one mode or use separate interfaces."
    );
    assert!(Config::default().airplay_warning().is_none());
}

#[test]
fn a_given_airplay_name_is_kept() {
    let given = ConfigValues {
        airplay_name: Some("Living room".to_owned()),
        ..nothing()
    };
    assert_eq!(Config::from_values(given).airplay_name, "Living room");
}

#[test]
fn invalid_file_is_refused() {
    let given = ConfigValues {
        rtp_port: Some(7236),
        ..nothing()
    };
    let e = Config::load_values(given).unwrap_err();
    assert!(matches!(e, ConfigError::RtspRtpCollision { port: 7236 }));
}

#[test]
fn ports_of_zero_do_not_collide() {
    let mut cfg = Config::default();
    cfg.rtsp_port = 0;
    cfg.rtp_port = 0;
    assert!(cfg.validate().is_ok());
}

#[test]
fn validation_messages() {
    let mut cfg = Config::default();
    cfg.p2p.wfd_subelems = String::new();
    assert_eq!(complaint(&cfg), "config field 'p2p.wfd_subelems' must not be empty");

    cfg.p2p.wfd_subelems = "abc".to_owned();
    assert_eq!(
        complaint(&cfg),
        "config field 'p2p.wfd_subelems' has odd length (3 chars); \
         hex strings must encode complete bytes"
    );

    cfg.p2p.wfd_subelems = "000GXX11".to_owned();
    assert_eq!(
        complaint(&cfg),
        "config field 'p2p.wfd_subelems' contains invalid hex character 'G' \
         at position 3; only 0-9 and a-f/A-F are allowed"
    );

    let mut cfg = Config::default();
    cfg.rtp_port = 7236;
    assert_eq!(
        complaint(&cfg),
        "rtsp_port (7236) and rtp_port (7236) must not be the same"
    );

    let mut cfg = Config::default();
    cfg.health_port = 7236;
    assert_eq!(
        complaint(&cfg),
        "health_port (7236) and rtsp_port (7236) must not be the same"
    );

    cfg.health_port = 16384;
    assert_eq!(
        complaint(&cfg),
        "health_port (16384) and rtp_port (16384) must not be the same"
    );
}

#[test]
fn hex_field_counts_bytes_and_characters() {
    // Two bytes, one character, which is no hex digit.
    let e = validate_hex_field("f", "é").unwrap_err();
    assert!(matches!(
        e,
        ConfigError::InvalidCharacter { ref field, ch: 'é', position: 0 } if field == "f"
    ));
    // Three bytes, one character.
    let e = validate_hex_field("f", "€").unwrap_err();
    assert!(matches!(e, ConfigError::OddLength { len: 3, .. }));
    // The position is counted in characters.
    let e = validate_hex_field("f", "0aÄéz0").unwrap_err();
    assert!(matches!(e, ConfigError::InvalidCharacter { ch: 'Ä', position: 2, .. }));
    assert!(validate_hex_field("f", "00fFaA99").is_ok());
    assert!(matches!(
        validate_hex_field("f", "").unwrap_err(),
        ConfigError::EmptyField { .. }
    ));
}
