//! Application configuration: its fields, their defaults and their constraints.
//!
//! Every field of a configuration file is optional; a field that is not given
//! takes its default, so the application runs without a file.

use vstd::prelude::*;

use crate::text;

verus! {

/// Top-level application configuration.
#[derive(Debug)]
pub struct Config {
    /// Human-readable name advertised over P2P (shown in Samsung Smart View).
    pub device_name: String,
    /// Linux network interface used for Wi-Fi Direct.
    pub wifi_interface: String,
    /// Linux network interface for the USB Ethernet gadget.
    pub usb_interface: String,
    /// RTSP control-plane port.
    pub rtsp_port: u16,
    /// UDP port on which RTP/MPEG-TS data is received.
    pub rtp_port: u16,
    /// Path to the persistent log file.
    pub log_file: String,
    /// TCP port of the HTTP health endpoint; `0` disables it.
    pub health_port: u16,
    /// Seconds without RTSP messages after which a connection is closed.
    pub rtsp_keepalive_secs: u64,
    /// Whether the sink sends its own M2 request after it answered M1.
    pub rtsp_send_m2: bool,
    /// Whether `uxplay` is run beside Miracast, for AirPlay reception.
    pub airplay_enabled: bool,
    /// Name that `uxplay` advertises: by default the device name with an
    /// `-AirPlay` suffix.
    pub airplay_name: String,
    /// P2P settings.
    pub p2p: P2pConfig,
}

/// P2P (Wi-Fi Direct) settings.
#[derive(Debug)]
pub struct P2pConfig {
    /// WPS primary device type, `{category}-{OUI}-{subcategory}`.
    pub wps_dev_type: String,
    /// Corresponds to the wpa_supplicant setting `p2p_no_group_iface`.
    pub no_group_iface: bool,
    /// WFD subelements, hex-encoded, that mark this device as a Miracast sink.
    pub wfd_subelems: String,
    /// Seconds of the P2P listen phase.
    pub listen_secs: u32,
    /// Maximum number of attempts to reach wpa_supplicant.
    pub connect_retries: u32,
    /// Seconds between two such attempts.
    pub connect_retry_secs: u64,
}

impl Clone for P2pConfig {
    fn clone(&self) -> (c: Self)
        ensures
            c == *self,
    {
        P2pConfig {
            wps_dev_type: self.wps_dev_type.clone(),
            no_group_iface: self.no_group_iface,
            wfd_subelems: self.wfd_subelems.clone(),
            listen_secs: self.listen_secs,
            connect_retries: self.connect_retries,
            connect_retry_secs: self.connect_retry_secs,
        }
    }
}

impl Clone for Config {
    fn clone(&self) -> (c: Self)
        ensures
            c == *self,
    {
        Config {
            device_name: self.device_name.clone(),
            wifi_interface: self.wifi_interface.clone(),
            usb_interface: self.usb_interface.clone(),
            rtsp_port: self.rtsp_port,
            rtp_port: self.rtp_port,
            log_file: self.log_file.clone(),
            health_port: self.health_port,
            rtsp_keepalive_secs: self.rtsp_keepalive_secs,
            rtsp_send_m2: self.rtsp_send_m2,
            airplay_enabled: self.airplay_enabled,
            airplay_name: self.airplay_name.clone(),
            p2p: self.p2p.clone(),
        }
    }
}

// ---------------------------------------------------------------------------
// Defaults
// ---------------------------------------------------------------------------

/// Default of [`Config::device_name`].
pub fn default_device_name() -> (r: String)
    ensures
        r@ == "NicoCast-Sink"@,
{
    "NicoCast-Sink".to_owned()
}

/// Default of [`Config::wifi_interface`].
pub fn default_wifi_interface() -> (r: String)
    ensures
        r@ == "wlan0"@,
{
    "wlan0".to_owned()
}

/// Default of [`Config::usb_interface`].
pub fn default_usb_interface() -> (r: String)
    ensures
        r@ == "usb0"@,
{
    "usb0".to_owned()
}

/// Default of [`Config::rtsp_port`], the usual port of Miracast.
pub fn default_rtsp_port() -> (r: u16)
    ensures
        r == 7236,
{
    7236
}

/// Default of [`Config::rtp_port`].
pub fn default_rtp_port() -> (r: u16)
    ensures
        r == 16384,
{
    16384
}

/// Default of [`Config::log_file`].
pub fn default_log_file() -> (r: String)
    ensures
        r@ == "/var/log/miracast_rs.log"@,
{
    "/var/log/miracast_rs.log".to_owned()
}

/// Default of [`Config::health_port`].
pub fn default_health_port() -> (r: u16)
    ensures
        r == 8080,
{
    8080
}

/// Default of [`Config::rtsp_keepalive_secs`]: two keep-alives may be missed.
pub fn default_rtsp_keepalive_secs() -> (r: u64)
    ensures
        r == 60,
{
    60
}

/// Default of [`Config::rtsp_send_m2`].
pub fn default_rtsp_send_m2() -> (r: bool)
    ensures
        !r,
{
    false
}

/// Default of [`Config::airplay_enabled`].
pub fn default_airplay_enabled() -> (r: bool)
    ensures
        !r,
{
    false
}

/// The name of a device for AirPlay, where no other is given.
pub open spec fn airplay_name_of(device_name: Seq<char>) -> Seq<char> {
    device_name + "-AirPlay"@
}

/// Default of [`Config::airplay_name`] for a device name.
pub fn default_airplay_name(device_name: &str) -> (r: String)
    ensures
        r@ == airplay_name_of(device_name@),
{
    let mut name = device_name.to_owned();
    name.append("-AirPlay");
    name
}

/// Default of [`P2pConfig::wps_dev_type`]: Display, television.
pub fn default_wps_dev_type() -> (r: String)
    ensures
        r@ == "7-0050F204-1"@,
{
    "7-0050F204-1".to_owned()
}

/// Default of [`P2pConfig::no_group_iface`]: a group interface is created.
pub fn default_p2p_no_group_iface() -> (r: bool)
    ensures
        !r,
{
    false
}

/// Default of [`P2pConfig::wfd_subelems`]: subelement 0 of six bytes, a primary
/// sink with a session available, control port 7236, 200 Mbps.
pub fn default_wfd_subelems() -> (r: String)
    ensures
        r@ == "000600111c4400c8"@,
{
    "000600111c4400c8".to_owned()
}

/// Default of [`P2pConfig::listen_secs`].
pub fn default_p2p_listen_secs() -> (r: u32)
    ensures
        r == 300,
{
    300
}

/// Default of [`P2pConfig::connect_retries`].
pub fn default_p2p_connect_retries() -> (r: u32)
    ensures
        r == 5,
{
    5
}

/// Default of [`P2pConfig::connect_retry_secs`].
pub fn default_p2p_connect_retry_secs() -> (r: u64)
    ensures
        r == 2,
{
    2
}

impl P2pConfig {
    /// Whether every field has its default.
    pub open spec fn is_default(self) -> bool {
        &&& self.wps_dev_type@ == "7-0050F204-1"@
        &&& !self.no_group_iface
        &&& self.wfd_subelems@ == "000600111c4400c8"@
        &&& self.listen_secs == 300
        &&& self.connect_retries == 5
        &&& self.connect_retry_secs == 2
    }
}

impl Config {
    /// Whether every field has its default.
    pub open spec fn is_default(self) -> bool {
        &&& self.device_name@ == "NicoCast-Sink"@
        &&& self.wifi_interface@ == "wlan0"@
        &&& self.usb_interface@ == "usb0"@
        &&& self.rtsp_port == 7236
        &&& self.rtp_port == 16384
        &&& self.log_file@ == "/var/log/miracast_rs.log"@
        &&& self.health_port == 8080
        &&& self.rtsp_keepalive_secs == 60
        &&& !self.rtsp_send_m2
        &&& !self.airplay_enabled
        &&& self.airplay_name@ == airplay_name_of("NicoCast-Sink"@)
        &&& self.p2p.is_default()
    }
}

impl Default for P2pConfig {
    fn default() -> (c: Self)
        ensures
            c.is_default(),
    {
        P2pConfig {
            wps_dev_type: default_wps_dev_type(),
            no_group_iface: default_p2p_no_group_iface(),
            wfd_subelems: default_wfd_subelems(),
            listen_secs: default_p2p_listen_secs(),
            connect_retries: default_p2p_connect_retries(),
            connect_retry_secs: default_p2p_connect_retry_secs(),
        }
    }
}

impl Default for Config {
    fn default() -> (c: Self)
        ensures
            c.is_default(),
    {
        let device_name = default_device_name();
        let airplay_name = default_airplay_name(device_name.as_str());
        Config {
            device_name,
            wifi_interface: default_wifi_interface(),
            usb_interface: default_usb_interface(),
            rtsp_port: default_rtsp_port(),
            rtp_port: default_rtp_port(),
            log_file: default_log_file(),
            health_port: default_health_port(),
            rtsp_keepalive_secs: default_rtsp_keepalive_secs(),
            rtsp_send_m2: default_rtsp_send_m2(),
            airplay_enabled: default_airplay_enabled(),
            airplay_name,
            p2p: P2pConfig::default(),
        }
    }
}

// ---------------------------------------------------------------------------
// Values of a configuration file
// ---------------------------------------------------------------------------

/// The fields that the `[p2p]` table of a configuration file gives.
#[derive(Debug)]
pub struct P2pValues {
    pub wps_dev_type: Option<String>,
    pub no_group_iface: Option<bool>,
    pub wfd_subelems: Option<String>,
    pub listen_secs: Option<u32>,
    pub connect_retries: Option<u32>,
    pub connect_retry_secs: Option<u64>,
}

/// The fields that a configuration file gives.
#[derive(Debug)]
pub struct ConfigValues {
    pub device_name: Option<String>,
    pub wifi_interface: Option<String>,
    pub usb_interface: Option<String>,
    pub rtsp_port: Option<u16>,
    pub rtp_port: Option<u16>,
    pub log_file: Option<String>,
    pub health_port: Option<u16>,
    pub rtsp_keepalive_secs: Option<u64>,
    pub rtsp_send_m2: Option<bool>,
    pub airplay_enabled: Option<bool>,
    pub airplay_name: Option<String>,
    pub p2p: Option<P2pValues>,
}

/// `given`, or `default` where nothing is given.
pub open spec fn value_or<T>(given: Option<T>, default: T) -> T {
    match given {
        Some(v) => v,
        None => default,
    }
}

/// The text given, or `default` where none is given.
pub open spec fn text_or(given: Option<String>, default: Seq<char>) -> Seq<char> {
    match given {
        Some(v) => v@,
        None => default,
    }
}

impl P2pConfig {
    /// Whether each field is the one given, or its default.
    pub open spec fn follows(self, given: P2pValues) -> bool {
        &&& self.wps_dev_type@ == text_or(given.wps_dev_type, "7-0050F204-1"@)
        &&& self.no_group_iface == value_or(given.no_group_iface, false)
        &&& self.wfd_subelems@ == text_or(given.wfd_subelems, "000600111c4400c8"@)
        &&& self.listen_secs == value_or(given.listen_secs, 300u32)
        &&& self.connect_retries == value_or(given.connect_retries, 5u32)
        &&& self.connect_retry_secs == value_or(given.connect_retry_secs, 2u64)
    }

    /// Fill in the defaults of the fields that are not given.
    pub fn from_values(given: P2pValues) -> (c: Self)
        ensures
            c.follows(given),
    {
        P2pConfig {
            wps_dev_type: match given.wps_dev_type {
                Some(v) => v,
                None => default_wps_dev_type(),
            },
            no_group_iface: match given.no_group_iface {
                Some(v) => v,
                None => default_p2p_no_group_iface(),
            },
            wfd_subelems: match given.wfd_subelems {
                Some(v) => v,
                None => default_wfd_subelems(),
            },
            listen_secs: match given.listen_secs {
                Some(v) => v,
                None => default_p2p_listen_secs(),
            },
            connect_retries: match given.connect_retries {
                Some(v) => v,
                None => default_p2p_connect_retries(),
            },
            connect_retry_secs: match given.connect_retry_secs {
                Some(v) => v,
                None => default_p2p_connect_retry_secs(),
            },
        }
    }
}

impl Config {
    /// Whether each field is the one given, or its default.
    pub open spec fn follows(self, given: ConfigValues) -> bool {
        &&& self.device_name@ == text_or(given.device_name, "NicoCast-Sink"@)
        &&& self.wifi_interface@ == text_or(given.wifi_interface, "wlan0"@)
        &&& self.usb_interface@ == text_or(given.usb_interface, "usb0"@)
        &&& self.rtsp_port == value_or(given.rtsp_port, 7236u16)
        &&& self.rtp_port == value_or(given.rtp_port, 16384u16)
        &&& self.log_file@ == text_or(given.log_file, "/var/log/miracast_rs.log"@)
        &&& self.health_port == value_or(given.health_port, 8080u16)
        &&& self.rtsp_keepalive_secs == value_or(given.rtsp_keepalive_secs, 60u64)
        &&& self.rtsp_send_m2 == value_or(given.rtsp_send_m2, false)
        &&& self.airplay_enabled == value_or(given.airplay_enabled, false)
        &&& self.airplay_name@ == text_or(
            given.airplay_name,
            airplay_name_of(text_or(given.device_name, "NicoCast-Sink"@)),
        )
        &&& match given.p2p {
            Some(p) => self.p2p.follows(p),
            None => self.p2p.is_default(),
        }
    }

    /// Fill in the defaults of the fields that are not given.
    pub fn from_values(given: ConfigValues) -> (c: Self)
        ensures
            c.follows(given),
    {
        let device_name = match given.device_name {
            Some(v) => v,
            None => default_device_name(),
        };
        let airplay_name = match given.airplay_name {
            Some(v) => v,
            None => default_airplay_name(device_name.as_str()),
        };
        Config {
            device_name,
            wifi_interface: match given.wifi_interface {
                Some(v) => v,
                None => default_wifi_interface(),
            },
            usb_interface: match given.usb_interface {
                Some(v) => v,
                None => default_usb_interface(),
            },
            rtsp_port: match given.rtsp_port {
                Some(v) => v,
                None => default_rtsp_port(),
            },
            rtp_port: match given.rtp_port {
                Some(v) => v,
                None => default_rtp_port(),
            },
            log_file: match given.log_file {
                Some(v) => v,
                None => default_log_file(),
            },
            health_port: match given.health_port {
                Some(v) => v,
                None => default_health_port(),
            },
            rtsp_keepalive_secs: match given.rtsp_keepalive_secs {
                Some(v) => v,
                None => default_rtsp_keepalive_secs(),
            },
            rtsp_send_m2: match given.rtsp_send_m2 {
                Some(v) => v,
                None => default_rtsp_send_m2(),
            },
            airplay_enabled: match given.airplay_enabled {
                Some(v) => v,
                None => default_airplay_enabled(),
            },
            airplay_name,
            p2p: match given.p2p {
                Some(p) => P2pConfig::from_values(p),
                None => P2pConfig::default(),
            },
        }
    }

    /// The configuration that a file gives, where it is valid.
    pub fn load_values(given: ConfigValues) -> (r: Result<Self, ConfigError>)
        ensures
            match r {
                Ok(c) => c.follows(given) && given.problem() is None,
                Err(e) => given.problem() == Some(e@),
            },
    {
        let c = Config::from_values(given);
        match c.validate() {
            Ok(()) => Ok(c),
            Err(e) => Err(e),
        }
    }
}

// ---------------------------------------------------------------------------
// Validation
// ---------------------------------------------------------------------------

/// What is wrong with a configuration.
#[derive(Debug)]
pub enum ConfigError {
    /// A hex field is empty.
    EmptyField { field: String },
    /// A hex field takes an odd number of bytes.
    OddLength { field: String, len: usize },
    /// A hex field holds a character that is no hex digit.
    InvalidCharacter { field: String, ch: char, position: usize },
    /// `rtsp_port` and `rtp_port` are the same.
    RtspRtpCollision { port: u16 },
    /// `health_port` and `rtsp_port` are the same.
    HealthRtspCollision { port: u16 },
    /// `health_port` and `rtp_port` are the same.
    HealthRtpCollision { port: u16 },
}

/// What is wrong with a configuration, as a value.
#[verifier::ext_equal]
pub enum Problem {
    EmptyField { field: Seq<char> },
    OddLength { field: Seq<char>, len: nat },
    InvalidCharacter { field: Seq<char>, ch: char, position: nat },
    RtspRtpCollision { port: u16 },
    HealthRtspCollision { port: u16 },
    HealthRtpCollision { port: u16 },
}

impl View for ConfigError {
    type V = Problem;

    open spec fn view(&self) -> Problem {
        match self {
            ConfigError::EmptyField { field } => Problem::EmptyField { field: field@ },
            ConfigError::OddLength { field, len } => Problem::OddLength {
                field: field@,
                len: *len as nat,
            },
            ConfigError::InvalidCharacter { field, ch, position } => Problem::InvalidCharacter {
                field: field@,
                ch: *ch,
                position: *position as nat,
            },
            ConfigError::RtspRtpCollision { port } => Problem::RtspRtpCollision { port: *port },
            ConfigError::HealthRtspCollision { port } => Problem::HealthRtspCollision {
                port: *port,
            },
            ConfigError::HealthRtpCollision { port } => Problem::HealthRtpCollision { port: *port },
        }
    }
}

/// Whether `c` is an ASCII hex digit.
pub open spec fn is_hex(c: char) -> bool {
    '0' <= c <= '9' || 'a' <= c <= 'f' || 'A' <= c <= 'F'
}

/// The index of the first character of `s` that is no hex digit, or its length.
pub open spec fn first_non_hex(s: Seq<char>) -> int
    decreases s.len(),
{
    if s.len() == 0 || !is_hex(s[0]) {
        0
    } else {
        1 + first_non_hex(s.drop_first())
    }
}

/// What is wrong with a hex field: it is empty, takes an odd number of bytes,
/// or holds a character that is no hex digit; in this order.
pub open spec fn hex_field_problem(field: Seq<char>, value: Seq<char>) -> Option<Problem> {
    let i = first_non_hex(value);
    if value.len() == 0 {
        Some(Problem::EmptyField { field })
    } else if text::byte_len(value) % 2 != 0 {
        Some(Problem::OddLength { field, len: text::byte_len(value) })
    } else if i < value.len() {
        Some(Problem::InvalidCharacter { field, ch: value[i], position: i as nat })
    } else {
        None
    }
}

/// Where the first character stands that is no hex digit.
pub proof fn lemma_first_non_hex(s: Seq<char>)
    ensures
        0 <= first_non_hex(s) <= s.len(),
        forall|j: int| 0 <= j < first_non_hex(s) ==> is_hex(#[trigger] s[j]),
        first_non_hex(s) < s.len() ==> !is_hex(s[first_non_hex(s)]),
    decreases s.len(),
{
    if s.len() > 0 && is_hex(s[0]) {
        let rest = s.drop_first();
        lemma_first_non_hex(rest);
        assert forall|j: int| 0 <= j < first_non_hex(s) implies is_hex(#[trigger] s[j]) by {
            if j > 0 {
                assert(rest[j - 1] == s[j]);
            }
        }
    }
}

/// Verify that `value` is a non-empty string of an even number of hex digits.
pub fn validate_hex_field(field: &str, value: &str) -> (r: Result<(), ConfigError>)
    ensures
        match r {
            Ok(()) => hex_field_problem(field@, value@) is None,
            Err(e) => hex_field_problem(field@, value@) == Some(e@),
        },
{
    if value.is_empty() {
        return Err(ConfigError::EmptyField { field: field.to_owned() });
    }
    let len = value.as_bytes().len();
    if len % 2 != 0 {
        return Err(ConfigError::OddLength { field: field.to_owned(), len });
    }
    let chars = text::chars_of(value);
    proof {
        lemma_first_non_hex(value@);
    }
    for i in 0..chars.len()
        invariant
            chars@ == value@,
            value@.len() > 0,
            text::byte_len(value@) % 2 == 0,
            i <= first_non_hex(value@) <= value@.len(),
            forall|j: int| 0 <= j < first_non_hex(value@) ==> is_hex(#[trigger] value@[j]),
            first_non_hex(value@) < value@.len() ==> !is_hex(value@[first_non_hex(value@)]),
    {
        let ch = chars[i];
        let hex = ('0' <= ch && ch <= '9') || ('a' <= ch && ch <= 'f') || ('A' <= ch && ch <= 'F');
        if !hex {
            assert(!is_hex(value@[i as int]));
            return Err(
                ConfigError::InvalidCharacter { field: field.to_owned(), ch, position: i },
            );
        }
    }
    Ok(())
}

/// What is wrong with the settings that are constrained, where something is:
/// the hex field, then the ports.  A port of 0 stands for no port in particular
/// and collides with none.
pub open spec fn settings_problem(
    wfd_subelems: Seq<char>,
    rtsp_port: u16,
    rtp_port: u16,
    health_port: u16,
) -> Option<Problem> {
    match hex_field_problem("p2p.wfd_subelems"@, wfd_subelems) {
        Some(p) => Some(p),
        None => if rtsp_port != 0 && rtsp_port == rtp_port {
            Some(Problem::RtspRtpCollision { port: rtsp_port })
        } else if health_port != 0 && health_port == rtsp_port {
            Some(Problem::HealthRtspCollision { port: health_port })
        } else if health_port != 0 && health_port == rtp_port {
            Some(Problem::HealthRtpCollision { port: health_port })
        } else {
            None
        },
    }
}

impl ConfigValues {
    /// What is wrong with the configuration that the values give.
    pub open spec fn problem(self) -> Option<Problem> {
        settings_problem(
            match self.p2p {
                Some(p) => text_or(p.wfd_subelems, "000600111c4400c8"@),
                None => "000600111c4400c8"@,
            },
            value_or(self.rtsp_port, 7236u16),
            value_or(self.rtp_port, 16384u16),
            value_or(self.health_port, 8080u16),
        )
    }
}

impl Config {
    /// What is wrong with the configuration, where something is.
    pub open spec fn problem(self) -> Option<Problem> {
        settings_problem(
            self.p2p.wfd_subelems@,
            self.rtsp_port,
            self.rtp_port,
            self.health_port,
        )
    }

    /// Check the constraints that the file format cannot express:
    ///
    /// * `p2p.wfd_subelems` is a non-empty hex string of even length;
    /// * `rtsp_port`, `rtp_port` and `health_port` do not collide (when non-zero).
    pub fn validate(&self) -> (r: Result<(), ConfigError>)
        ensures
            match r {
                Ok(()) => self.problem() is None,
                Err(e) => self.problem() == Some(e@),
            },
    {
        match validate_hex_field("p2p.wfd_subelems", self.p2p.wfd_subelems.as_str()) {
            Ok(()) => {},
            Err(e) => {
                return Err(e);
            },
        }
        if self.rtsp_port != 0 && self.rtsp_port == self.rtp_port {
            return Err(ConfigError::RtspRtpCollision { port: self.rtsp_port });
        }
        if self.health_port != 0 {
            if self.health_port == self.rtsp_port {
                return Err(ConfigError::HealthRtspCollision { port: self.health_port });
            }
            if self.health_port == self.rtp_port {
                return Err(ConfigError::HealthRtpCollision { port: self.health_port });
            }
        }
        Ok(())
    }

    /// The warning about AirPlay, which needs the same radio as Miracast.
    pub open spec fn airplay_conflict(self) -> Option<Seq<char>> {
        if self.airplay_enabled {
            Some(
                "airplay_enabled = true: AirPlay (uxplay) and Miracast (P2P) both require exclusive control of WiFi interface '"@
                    + self.wifi_interface@
                    + "'. Running both simultaneously will cause connectivity failures. Disable one mode or use separate interfaces."@,
            )
        } else {
            None
        }
    }

    /// A warning for a valid configuration that enables AirPlay.
    pub fn airplay_warning(&self) -> (r: Option<String>)
        ensures
            text::opt_text(r) == self.airplay_conflict(),
    {
        if self.airplay_enabled {
            let mut out =
                "airplay_enabled = true: AirPlay (uxplay) and Miracast (P2P) both require exclusive control of WiFi interface '".to_owned();
            out.append(self.wifi_interface.as_str());
            out.append(
                "'. Running both simultaneously will cause connectivity failures. Disable one mode or use separate interfaces.",
            );
            Some(out)
        } else {
            None
        }
    }
}

/// The message for two ports that collide.
pub open spec fn collision_message(a: Seq<char>, b: Seq<char>, port: u16) -> Seq<char> {
    a + " ("@ + text::decimal(port as nat) + ") and "@ + b + " ("@ + text::decimal(port as nat)
        + ") must not be the same"@
}

impl Problem {
    /// The message that describes the problem.
    pub open spec fn message(self) -> Seq<char> {
        match self {
            Problem::EmptyField { field } => "config field '"@ + field + "' must not be empty"@,
            Problem::OddLength { field, len } => "config field '"@ + field
                + "' has odd length ("@ + text::decimal(len)
                + " chars); hex strings must encode complete bytes"@,
            Problem::InvalidCharacter { field, ch, position } => ("config field '"@ + field
                + "' contains invalid hex character '"@).push(ch) + "' at position "@
                + text::decimal(position) + "; only 0-9 and a-f/A-F are allowed"@,
            Problem::RtspRtpCollision { port } => collision_message(
                "rtsp_port"@,
                "rtp_port"@,
                port,
            ),
            Problem::HealthRtspCollision { port } => collision_message(
                "health_port"@,
                "rtsp_port"@,
                port,
            ),
            Problem::HealthRtpCollision { port } => collision_message(
                "health_port"@,
                "rtp_port"@,
                port,
            ),
        }
    }
}

/// The message for two ports that collide.
fn describe_collision(a: &str, b: &str, port: u16) -> (out: String)
    ensures
        out@ == collision_message(a@, b@, port),
{
    let mut out = a.to_owned();
    out.append(" (");
    text::push_decimal(&mut out, port as u64);
    out.append(") and ");
    out.append(b);
    out.append(" (");
    text::push_decimal(&mut out, port as u64);
    out.append(") must not be the same");
    out
}

impl ConfigError {
    /// The message that describes the error.
    pub fn message(&self) -> (out: String)
        ensures
            out@ == self@.message(),
    {
        match self {
            ConfigError::EmptyField { field } => {
                let mut out = "config field '".to_owned();
                out.append(field.as_str());
                out.append("' must not be empty");
                out
            },
            ConfigError::OddLength { field, len } => {
                let mut out = "config field '".to_owned();
                out.append(field.as_str());
                out.append("' has odd length (");
                text::push_decimal(&mut out, *len as u64);
                out.append(" chars); hex strings must encode complete bytes");
                out
            },
            ConfigError::InvalidCharacter { field, ch, position } => {
                let mut out = "config field '".to_owned();
                out.append(field.as_str());
                out.append("' contains invalid hex character '");
                out.push(*ch);
                out.append("' at position ");
                text::push_decimal(&mut out, *position as u64);
                out.append("; only 0-9 and a-f/A-F are allowed");
                out
            },
            ConfigError::RtspRtpCollision { port } => describe_collision(
                "rtsp_port",
                "rtp_port",
                *port,
            ),
            ConfigError::HealthRtspCollision { port } => describe_collision(
                "health_port",
                "rtsp_port",
                *port,
            ),
            ConfigError::HealthRtpCollision { port } => describe_collision(
                "health_port",
                "rtp_port",
                *port,
            ),
        }
    }
}

// ---------------------------------------------------------------------------
// Laws
// ---------------------------------------------------------------------------

/// Without a configuration file every field has its default.
pub proof fn law_nothing_given_is_the_default(given: ConfigValues, c: Config)
    requires
        given.device_name is None,
        given.wifi_interface is None,
        given.usb_interface is None,
        given.rtsp_port is None,
        given.rtp_port is None,
        given.log_file is None,
        given.health_port is None,
        given.rtsp_keepalive_secs is None,
        given.rtsp_send_m2 is None,
        given.airplay_enabled is None,
        given.airplay_name is None,
        given.p2p is None,
        c.follows(given),
    ensures
        c.is_default(),
{
}

/// The default configuration is valid.
pub proof fn law_default_is_valid(c: Config)
    requires
        c.is_default(),
    ensures
        c.problem() is None,
{
    reveal_strlit("000600111c4400c8");
    let s = c.p2p.wfd_subelems@;
    lemma_first_non_hex(s);
    vstd::utf8::is_ascii_chars_encode_utf8(s);
}

/// A configuration that follows a file is valid exactly where the file is.
pub proof fn law_validity_follows_the_file(given: ConfigValues, c: Config)
    requires
        c.follows(given),
    ensures
        c.problem() == given.problem(),
{
}

/// In a valid configuration no two ports in use are the same, and the WFD
/// subelements are an even and positive number of hex digits.
pub proof fn law_valid_settings(c: Config)
    requires
        c.problem() is None,
    ensures
        c.rtsp_port != 0 ==> c.rtsp_port != c.rtp_port,
        c.health_port != 0 ==> c.health_port != c.rtsp_port && c.health_port != c.rtp_port,
        c.p2p.wfd_subelems@.len() > 0,
        c.p2p.wfd_subelems@.len() % 2 == 0,
        forall|i: int|
            0 <= i < c.p2p.wfd_subelems@.len() ==> is_hex(#[trigger] c.p2p.wfd_subelems@[i]),
{
    let s = c.p2p.wfd_subelems@;
    lemma_first_non_hex(s);
    vstd::utf8::is_ascii_chars_encode_utf8(s);
}

/// Whether a text is a positive and even number of ASCII hex digits.
pub open spec fn is_hex_string(s: Seq<char>) -> bool {
    &&& s.len() > 0
    &&& s.len() % 2 == 0
    &&& forall|i: int|
        0 <= i < s.len() ==> {
            let c = #[trigger] s[i];
            '0' <= c <= '9' || 'a' <= c <= 'f' || 'A' <= c <= 'F'
        }
}

/// A field is accepted exactly where it is a hex string.
proof fn lemma_hex_field(field: Seq<char>, value: Seq<char>)
    ensures
        hex_field_problem(field, value) is None <==> is_hex_string(value),
{
    lemma_first_non_hex(value);
    if forall|i: int| 0 <= i < value.len() ==> is_hex(#[trigger] value[i]) {
        assert forall|i: int| 0 <= i < value.len() implies '\0' <= #[trigger] value[i]
            <= '\u{7f}' by {
            assert(is_hex(value[i]));
        }
        vstd::utf8::is_ascii_chars_encode_utf8(value);
    }
    if is_hex_string(value) {
        assert forall|i: int| 0 <= i < value.len() implies is_hex(#[trigger] value[i]) by {}
    }
    if hex_field_problem(field, value) is None {
        assert forall|i: int| 0 <= i < value.len() implies {
            let c = #[trigger] value[i];
            '0' <= c <= '9' || 'a' <= c <= 'f' || 'A' <= c <= 'F'
        } by {
            assert(is_hex(value[i]));
        }
    }
}

/// A hex field is accepted exactly where it is a positive and even number of
/// hex digits.  Otherwise it is empty, takes an odd number of bytes, or holds a
/// character that is no hex digit, and the first of these is reported with the
/// field's name and the first such character.
pub proof fn law_validate_hex_field(field: &str, value: &str, r: Result<(), ConfigError>)
    requires
        call_ensures(validate_hex_field, (field, value), r),
    ensures
        r is Ok <==> is_hex_string(value@),
        (r is Err && r->Err_0 is EmptyField) <==> value@.len() == 0,
        (r is Err && r->Err_0 is OddLength) <==> vstd::utf8::encode_utf8(value@).len() % 2 == 1,
        r is Err ==> r->Err_0 is EmptyField || r->Err_0 is OddLength || r->Err_0
            is InvalidCharacter,
        r matches Err(ConfigError::EmptyField { field: f }) ==> f@ == field@,
        r matches Err(ConfigError::OddLength { field: f, len }) ==> f@ == field@ && len
            == vstd::utf8::encode_utf8(value@).len(),
        r matches Err(ConfigError::InvalidCharacter { field: f, ch, position }) ==> {
            &&& f@ == field@
            &&& position < value@.len()
            &&& ch == value@[position as int]
            &&& !is_hex(ch)
            &&& forall|j: int| 0 <= j < position ==> is_hex(#[trigger] value@[j])
        },
{
    lemma_hex_field(field@, value@);
    lemma_first_non_hex(value@);
    if value@.len() == 0 {
        assert(value@ =~= seq![]);
        assert(vstd::utf8::encode_utf8(value@) =~= seq![]);
    }
}

/// A configuration is valid exactly where its WFD subelements are a hex string
/// and no two of its ports are the same, ports of 0 aside; a collision is
/// reported only where the two ports are equal, and names that port.
pub proof fn law_validate(c: &Config, r: Result<(), ConfigError>)
    requires
        call_ensures(Config::validate, (c,), r),
    ensures
        r is Ok <==> {
            &&& is_hex_string(c.p2p.wfd_subelems@)
            &&& c.rtsp_port == 0 || c.rtsp_port != c.rtp_port
            &&& c.health_port == 0 || (c.health_port != c.rtsp_port && c.health_port
                != c.rtp_port)
        },
        r is Ok <== is_hex_string(c.p2p.wfd_subelems@) && c.rtsp_port != c.rtp_port && (
        c.health_port == 0 || (c.health_port != c.rtsp_port && c.health_port != c.rtp_port)),
        (r is Err && (r->Err_0 is EmptyField || r->Err_0 is OddLength || r->Err_0
            is InvalidCharacter)) <==> !is_hex_string(c.p2p.wfd_subelems@),
        r matches Err(ConfigError::RtspRtpCollision { port }) ==> port == c.rtsp_port && port
            == c.rtp_port && port != 0,
        r matches Err(ConfigError::HealthRtspCollision { port }) ==> port == c.health_port && port
            == c.rtsp_port && port != 0,
        r matches Err(ConfigError::HealthRtpCollision { port }) ==> port == c.health_port && port
            == c.rtp_port && port != 0,
        is_hex_string(c.p2p.wfd_subelems@) && c.rtsp_port == c.rtp_port && c.rtsp_port != 0
            ==> r is Err && r->Err_0 is RtspRtpCollision,
        r matches Err(ConfigError::EmptyField { field }) ==> field@ == "p2p.wfd_subelems"@,
        r matches Err(ConfigError::OddLength { field, len }) ==> field@ == "p2p.wfd_subelems"@
            && len == vstd::utf8::encode_utf8(c.p2p.wfd_subelems@).len(),
        r matches Err(ConfigError::InvalidCharacter { field, ch, position }) ==> {
            &&& field@ == "p2p.wfd_subelems"@
            &&& position < c.p2p.wfd_subelems@.len()
            &&& ch == c.p2p.wfd_subelems@[position as int]
            &&& !is_hex(ch)
        },
{
    lemma_hex_field("p2p.wfd_subelems"@, c.p2p.wfd_subelems@);
    lemma_first_non_hex(c.p2p.wfd_subelems@);
}

/// A configuration file is accepted exactly where the configuration that it
/// gives is valid, and then gives it.
pub proof fn law_load_values(
    given: ConfigValues,
    c: Config,
    v: Result<(), ConfigError>,
    r: Result<Config, ConfigError>,
)
    requires
        call_ensures(Config::from_values, (given,), c),
        call_ensures(Config::validate, (&c,), v),
        call_ensures(Config::load_values, (given,), r),
    ensures
        r is Ok <==> v is Ok,
        r matches Ok(loaded) ==> loaded.follows(given),
        r is Err && v is Err ==> r->Err_0@ == v->Err_0@,
{
}

/// Every value that is given is taken, field by field.
pub proof fn law_given_values_are_taken(given: ConfigValues, c: Config)
    requires
        call_ensures(Config::from_values, (given,), c),
    ensures
        given.device_name matches Some(v) ==> c.device_name@ == v@,
        given.wifi_interface matches Some(v) ==> c.wifi_interface@ == v@,
        given.usb_interface matches Some(v) ==> c.usb_interface@ == v@,
        given.rtsp_port matches Some(v) ==> c.rtsp_port == v,
        given.rtp_port matches Some(v) ==> c.rtp_port == v,
        given.log_file matches Some(v) ==> c.log_file@ == v@,
        given.health_port matches Some(v) ==> c.health_port == v,
        given.rtsp_keepalive_secs matches Some(v) ==> c.rtsp_keepalive_secs == v,
        given.rtsp_send_m2 matches Some(v) ==> c.rtsp_send_m2 == v,
        given.airplay_enabled matches Some(v) ==> c.airplay_enabled == v,
        given.airplay_name matches Some(v) ==> c.airplay_name@ == v@,
        given.p2p matches Some(p) ==> {
            &&& p.wps_dev_type matches Some(v) ==> c.p2p.wps_dev_type@ == v@
            &&& p.no_group_iface matches Some(v) ==> c.p2p.no_group_iface == v
            &&& p.wfd_subelems matches Some(v) ==> c.p2p.wfd_subelems@ == v@
            &&& p.listen_secs matches Some(v) ==> c.p2p.listen_secs == v
            &&& p.connect_retries matches Some(v) ==> c.p2p.connect_retries == v
            &&& p.connect_retry_secs matches Some(v) ==> c.p2p.connect_retry_secs == v
        },
{
}

/// A value that is not given is the default, whatever else is given; AirPlay
/// is named after the device.
pub proof fn law_missing_values_are_defaults(given: ConfigValues, c: Config)
    requires
        call_ensures(Config::from_values, (given,), c),
    ensures
        given.device_name is None ==> c.device_name@ == "NicoCast-Sink"@,
        given.wifi_interface is None ==> c.wifi_interface@ == "wlan0"@,
        given.usb_interface is None ==> c.usb_interface@ == "usb0"@,
        given.rtsp_port is None ==> c.rtsp_port == 7236,
        given.rtp_port is None ==> c.rtp_port == 16384,
        given.log_file is None ==> c.log_file@ == "/var/log/miracast_rs.log"@,
        given.health_port is None ==> c.health_port == 8080,
        given.rtsp_keepalive_secs is None ==> c.rtsp_keepalive_secs == 60,
        given.rtsp_send_m2 is None ==> !c.rtsp_send_m2,
        given.airplay_enabled is None ==> !c.airplay_enabled,
        given.airplay_name is None ==> c.airplay_name@ == c.device_name@ + "-AirPlay"@,
        given.p2p is None || given.p2p->0.wps_dev_type is None ==> c.p2p.wps_dev_type@
            == "7-0050F204-1"@,
        given.p2p is None || given.p2p->0.no_group_iface is None ==> !c.p2p.no_group_iface,
        given.p2p is None || given.p2p->0.wfd_subelems is None ==> c.p2p.wfd_subelems@
            == "000600111c4400c8"@,
        given.p2p is None || given.p2p->0.listen_secs is None ==> c.p2p.listen_secs == 300,
        given.p2p is None || given.p2p->0.connect_retries is None ==> c.p2p.connect_retries == 5,
        given.p2p is None || given.p2p->0.connect_retry_secs is None ==> c.p2p.connect_retry_secs
            == 2,
{
}

/// A complaint names what is wrong: the field, its length, the character and
/// its place, or the two settings and the port.
pub proof fn law_messages(e: &ConfigError, out: String)
    requires
        call_ensures(ConfigError::message, (e,), out),
    ensures
        e matches ConfigError::EmptyField { field } ==> out@ == "config field '"@ + field@
            + "' must not be empty"@,
        e matches ConfigError::OddLength { field, len } ==> exists|n: Seq<char>|
            text::unsigned(n, usize::MAX as nat) == Some(*len as nat) && out@ == #[trigger] (
            "config field '"@ + field@ + "' has odd length ("@ + n
                + " chars); hex strings must encode complete bytes"@),
        e matches ConfigError::InvalidCharacter { field, ch, position } ==> exists|n: Seq<char>|
            text::unsigned(n, usize::MAX as nat) == Some(*position as nat) && out@ == #[trigger] (
            "config field '"@ + field@ + "' contains invalid hex character '"@ + seq![*ch]
                + "' at position "@ + n + "; only 0-9 and a-f/A-F are allowed"@),
        e matches ConfigError::RtspRtpCollision { port } ==> is_collision(
            out@,
            "rtsp_port ("@,
            ") and rtp_port ("@,
            *port,
        ),
        e matches ConfigError::HealthRtspCollision { port } ==> is_collision(
            out@,
            "health_port ("@,
            ") and rtsp_port ("@,
            *port,
        ),
        e matches ConfigError::HealthRtpCollision { port } ==> is_collision(
            out@,
            "health_port ("@,
            ") and rtp_port ("@,
            *port,
        ),
{
    match e {
        ConfigError::EmptyField { field } => {},
        ConfigError::OddLength { field, len } => {
            let n = text::decimal(*len as nat);
            text::law_decimal_round_trip(*len as nat, usize::MAX as nat);
            assert(out@ == "config field '"@ + field@ + "' has odd length ("@ + n
                + " chars); hex strings must encode complete bytes"@);
        },
        ConfigError::InvalidCharacter { field, ch, position } => {
            let n = text::decimal(*position as nat);
            text::law_decimal_round_trip(*position as nat, usize::MAX as nat);
            assert(out@ =~= "config field '"@ + field@ + "' contains invalid hex character '"@
                + seq![*ch] + "' at position "@ + n + "; only 0-9 and a-f/A-F are allowed"@);
        },
        ConfigError::RtspRtpCollision { port } => {
            reveal_strlit("rtsp_port (");
            reveal_strlit("rtsp_port");
            reveal_strlit(") and rtp_port (");
            reveal_strlit("rtp_port");
            lemma_collision("rtsp_port"@, "rtp_port"@, *port);
            reveal_strlit(" (");
            reveal_strlit(") and ");
            assert("rtsp_port"@ + " ("@ =~= "rtsp_port ("@);
            assert(") and "@ + "rtp_port"@ + " ("@ =~= ") and rtp_port ("@);
        },
        ConfigError::HealthRtspCollision { port } => {
            reveal_strlit("health_port (");
            reveal_strlit("health_port");
            reveal_strlit(") and rtsp_port (");
            reveal_strlit("rtsp_port");
            lemma_collision("health_port"@, "rtsp_port"@, *port);
            reveal_strlit(" (");
            reveal_strlit(") and ");
            assert("health_port"@ + " ("@ =~= "health_port ("@);
            assert(") and "@ + "rtsp_port"@ + " ("@ =~= ") and rtsp_port ("@);
        },
        ConfigError::HealthRtpCollision { port } => {
            reveal_strlit("health_port (");
            reveal_strlit("health_port");
            reveal_strlit(") and rtp_port (");
            reveal_strlit("rtp_port");
            lemma_collision("health_port"@, "rtp_port"@, *port);
            reveal_strlit(" (");
            reveal_strlit(") and ");
            assert("health_port"@ + " ("@ =~= "health_port ("@);
            assert(") and "@ + "rtp_port"@ + " ("@ =~= ") and rtp_port ("@);
        },
    }
}

/// Whether a text says that two settings have the same port.
pub open spec fn is_collision(
    out: Seq<char>,
    first: Seq<char>,
    second: Seq<char>,
    port: u16,
) -> bool {
    exists|n: Seq<char>|
        text::unsigned(n, 65_535) == Some(port as nat) && out == #[trigger] (first + n + second + n
            + ") must not be the same"@)
}

/// The message for two ports that collide says so.
proof fn lemma_collision(a: Seq<char>, b: Seq<char>, port: u16)
    ensures
        is_collision(
            collision_message(a, b, port),
            a + " ("@,
            ") and "@ + b + " ("@,
            port,
        ),
{
    let n = text::decimal(port as nat);
    text::law_decimal_round_trip(port as nat, 65_535);
    assert(collision_message(a, b, port) =~= (a + " ("@) + n + (") and "@ + b + " ("@) + n
        + ") must not be the same"@);
}

/// A valid configuration is warned about exactly where it enables AirPlay, and
/// the warning names the interface that both modes need.
pub proof fn law_airplay_warning(c: &Config, r: Option<String>)
    requires
        call_ensures(Config::airplay_warning, (c,), r),
    ensures
        r is Some <==> c.airplay_enabled,
        r matches Some(w) ==> w@
            == "airplay_enabled = true: AirPlay (uxplay) and Miracast (P2P) both require exclusive control of WiFi interface '"@
            + c.wifi_interface@
            + "'. Running both simultaneously will cause connectivity failures. Disable one mode or use separate interfaces."@,
{
}

/// AirPlay is named after the device unless it has a name of its own.
pub proof fn law_airplay_name(device_name: &str, name: String, other: &str, other_name: String)
    requires
        call_ensures(default_airplay_name, (device_name,), name),
        call_ensures(default_airplay_name, (other,), other_name),
    ensures
        name@ == device_name@ + "-AirPlay"@,
        name@ == other_name@ ==> device_name@ == other@,
{
    if name@ == other_name@ {
        let n = device_name@.len() as int;
        assert((device_name@ + "-AirPlay"@).len() == (other@ + "-AirPlay"@).len());
        assert(name@.take(n) =~= device_name@);
        assert(other_name@.take(n) =~= other@);
    }
}

/// The defaults are what a file that gives nothing leaves, for the P2P settings
/// on their own too.
pub proof fn law_defaults(given: ConfigValues, c: Config, d: Config, p: P2pConfig)
    requires
        call_ensures(Config::from_values, (given,), c),
        call_ensures(<Config as Default>::default, (), d),
        call_ensures(<P2pConfig as Default>::default, (), p),
    ensures
        given.device_name is None ==> c.device_name@ == d.device_name@,
        given.wifi_interface is None ==> c.wifi_interface@ == d.wifi_interface@,
        given.usb_interface is None ==> c.usb_interface@ == d.usb_interface@,
        given.rtsp_port is None ==> c.rtsp_port == d.rtsp_port,
        given.rtp_port is None ==> c.rtp_port == d.rtp_port,
        given.log_file is None ==> c.log_file@ == d.log_file@,
        given.health_port is None ==> c.health_port == d.health_port,
        given.rtsp_keepalive_secs is None ==> c.rtsp_keepalive_secs == d.rtsp_keepalive_secs,
        given.rtsp_send_m2 is None ==> c.rtsp_send_m2 == d.rtsp_send_m2,
        given.airplay_enabled is None ==> c.airplay_enabled == d.airplay_enabled,
        given.airplay_name is None && given.device_name is None ==> c.airplay_name@
            == d.airplay_name@,
        given.p2p is None ==> c.p2p.wps_dev_type@ == p.wps_dev_type@ && c.p2p.no_group_iface
            == p.no_group_iface && c.p2p.wfd_subelems@ == p.wfd_subelems@ && c.p2p.listen_secs
            == p.listen_secs && c.p2p.connect_retries == p.connect_retries
            && c.p2p.connect_retry_secs == p.connect_retry_secs,
        d.p2p.wps_dev_type@ == p.wps_dev_type@ && d.p2p.wfd_subelems@ == p.wfd_subelems@
            && d.p2p.listen_secs == p.listen_secs && d.p2p.connect_retries == p.connect_retries
            && d.p2p.connect_retry_secs == p.connect_retry_secs && d.p2p.no_group_iface
            == p.no_group_iface,
{
}

} // verus!
